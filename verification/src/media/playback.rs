//! What the audio server's callbacks do with the rings.

use vstd::prelude::*;

use crate::media::record::pcm_bytes;
use crate::media::ring::{fed, push_to, seen, source_ring, upcoming, SampleSink, SampleSource};

verus! {

/// How much audio has to be there before any of it is played: 200 ms.
pub const PREBUFFER_SAMPLES: usize = 1_600;

/// How much audio is kept when a backlog is cut: two seconds.
pub const TARGET_BUFFERED_SAMPLES: usize = 16_000;

/// How much audio may wait before the backlog is cut.
pub const MAX_BUFFERED_SAMPLES: usize = 20_000;

/// How many samples are moved at a time.
pub const CHUNK: usize = 1_024;

/// How many samples too many wait to be played. A backlog that has grown past
/// the ceiling is cut back to the target, not just to the ceiling.
pub open spec fn excess(occupied: int) -> int {
    if occupied > MAX_BUFFERED_SAMPLES {
        occupied - TARGET_BUFFERED_SAMPLES
    } else {
        0
    }
}

/// How many samples to discard of a backlog.
pub fn samples_to_discard(occupied: usize) -> (n: usize)
    ensures
        n == excess(occupied as int),
{
    if occupied > MAX_BUFFERED_SAMPLES {
        occupied - TARGET_BUFFERED_SAMPLES
    } else {
        0
    }
}

/// Whether playing may begin, or has begun already.
pub fn may_play(prebuffered: bool, occupied: usize) -> (r: bool)
    ensures
        r == (prebuffered || occupied >= PREBUFFER_SAMPLES),
{
    prebuffered || occupied >= PREBUFFER_SAMPLES
}

/// The distance of a sample from silence.
pub open spec fn loudness(s: i16) -> int {
    if s < 0 {
        -s
    } else {
        s as int
    }
}

/// The loudest of the samples, zero where there is none.
pub open spec fn is_peak(samples: Seq<i16>, peak: int) -> bool {
    &&& forall|i: int| 0 <= i < samples.len() ==> loudness(#[trigger] samples[i]) <= peak
    &&& peak == 0 || exists|i: int| 0 <= i < samples.len() && loudness(#[trigger] samples[i]) == peak
}

/// The loudest of the samples.
pub fn peak_of(samples: &Vec<i16>) -> (peak: u16)
    ensures
        is_peak(samples@, peak as int),
{
    let mut peak: u16 = 0;
    let mut i: usize = 0;
    while i < samples.len()
        invariant
            i <= samples@.len(),
            forall|j: int| 0 <= j < i ==> loudness(#[trigger] samples@[j]) <= peak,
            peak == 0 || exists|j: int| 0 <= j < i && loudness(#[trigger] samples@[j]) == peak,
        decreases samples.len() - i,
    {
        let s: i32 = samples[i] as i32;
        let a: u16 = if s < 0 {
            (-s) as u16
        } else {
            s as u16
        };
        if a > peak {
            peak = a;
            assert(loudness(samples@[i as int]) == peak);
        }
        i = i + 1;
    }
    peak
}

/// Silence.
pub open spec fn silence(n: int) -> Seq<i16> {
    Seq::new(n as nat, |i: int| 0i16)
}

/// Whether the first `n` frames of `out` play `source`: chunk by chunk, each
/// as many samples as there were, then silence up to its end.
pub open spec fn plays(out: Seq<i16>, n: int, source: Seq<i16>) -> bool
    decreases n,
{
    if n <= 0 {
        source.len() == 0
    } else {
        let start = ((n - 1) / (CHUNK as int)) * CHUNK;
        exists|cut: int|
            0 <= cut <= source.len() <= cut + n - start && out.subrange(start, n) == source.skip(
                cut,
            ) + silence(n - start - (source.len() - cut)) && plays(
                out,
                start,
                #[trigger] source.take(cut),
            )
    }
}

/// Playing depends on nothing behind the frames that are played.
proof fn plays_prefix(a: Seq<i16>, b: Seq<i16>, n: int, source: Seq<i16>)
    requires
        0 <= n <= a.len(),
        n <= b.len(),
        a.take(n) == b.take(n),
        plays(a, n, source),
    ensures
        plays(b, n, source),
    decreases n,
{
    if n > 0 {
        let start = ((n - 1) / (CHUNK as int)) * CHUNK;
        let cut = choose|cut: int|
            0 <= cut <= source.len() <= cut + n - start && a.subrange(start, n) == source.skip(cut)
                + silence(n - start - (source.len() - cut)) && plays(
                a,
                start,
                #[trigger] source.take(cut),
            );
        assert(a.take(start) =~= a.take(n).take(start));
        assert(b.take(start) =~= b.take(n).take(start));
        plays_prefix(a, b, start, source.take(cut));
        assert(a.subrange(start, n) =~= a.take(n).subrange(start, n));
        assert(b.subrange(start, n) =~= b.take(n).subrange(start, n));
    }
}

/// The playing side of a stream.
pub struct Playback {
    pub source: SampleSource,
    pub prebuffered: bool,
}

/// Whether a stream fills a buffer so: it looks how many samples are there, and
/// plays if those are enough or it has played before; it looks again, throws
/// away the excess, and plays at least what it saw, the next samples first and
/// without a gap, as far as the buffer goes. Behind that there is silence where
/// no more samples come, and nothing but silence where it does not play yet.
pub open spec fn fills(
    before: Playback,
    after: Playback,
    r: Filled,
    ready: int,
    backlog: int,
) -> bool {
    let all = upcoming(before.source);
    &&& seen(before.source) <= ready <= backlog <= all.len()
    &&& after.prebuffered == (before.prebuffered || ready >= PREBUFFER_SAMPLES)
    &&& r.discarded == excess(backlog)
    &&& after.prebuffered ==> {
        &&& r.played == r.samples@.len() || r.discarded + r.played >= backlog
        &&& forall|i: int|
            0 <= i < r.samples@.len() && r.discarded + i < backlog ==> #[trigger] r.samples@[i]
                == all[r.discarded + i]
        &&& backlog == all.len() ==> forall|i: int|
            0 <= i < r.samples@.len() && r.discarded + i >= backlog ==> #[trigger] r.samples@[i]
                == 0
    }
    &&& !after.prebuffered ==> r.played == 0 && r.samples@ == silence(r.samples@.len() as int)
}

/// What a callback hands to the audio server.
#[derive(Debug)]
pub struct Filled {
    pub samples: Vec<i16>,
    /// The loudest of the samples.
    pub peak: u16,
    /// How many samples of the backlog were thrown away first.
    pub discarded: usize,
    /// How many of the samples came from the ring.
    pub played: usize,
}

impl Playback {
    /// A stream that has not played anything yet.
    pub fn new(source: SampleSource) -> (r: Self)
        ensures
            r.source == source,
            !r.prebuffered,
    {
        Playback { source, prebuffered: false }
    }

    /// Throws away up to `n` samples, fewer where no more are there.
    fn discard(&mut self, n: usize) -> (done: usize)
        ensures
            done <= n,
            done <= upcoming(old(self).source).len(),
            upcoming(final(self).source) == upcoming(old(self).source).skip(done as int),
            seen(old(self).source) <= done + seen(final(self).source),
            done < n ==> seen(final(self).source) == 0,
            source_ring(final(self).source) == source_ring(old(self).source),
            final(self).prebuffered == old(self).prebuffered,
    {
        let mut left: usize = n;
        let ghost all = upcoming(self.source);
        assert(all.skip(0) =~= all);
        while left > 0
            invariant
                left <= n,
                all == upcoming(old(self).source),
                n - left <= all.len(),
                upcoming(self.source) == all.skip(n - left),
                seen(old(self).source) <= n - left + seen(self.source),
                source_ring(self.source) == source_ring(old(self).source),
                self.prebuffered == old(self).prebuffered,
            ensures
                left > 0 ==> seen(self.source) == 0,
            decreases left,
        {
            let want: usize = if left < CHUNK {
                left
            } else {
                CHUNK
            };
            let trash = self.source.pop(want);
            let popped: usize = trash.len();
            assert(all.skip(n - left).skip(popped as int) =~= all.skip(n - left + popped));
            if popped == 0 {
                break;
            }
            left = left - popped;
        }
        n - left
    }

    /// Fills a buffer of `max_frames` samples.
    ///
    /// Nothing is played before enough has gathered. What is missing after
    /// that is silence. A backlog that has grown too long is cut first.
    pub fn fill(&mut self, max_frames: usize) -> (r: Filled)
        ensures
            r.samples@.len() == max_frames,
            r.discarded + r.played <= upcoming(old(self).source).len(),
            upcoming(final(self).source) == upcoming(old(self).source).skip(
                r.discarded + r.played,
            ),
            plays(
                r.samples@,
                max_frames as int,
                upcoming(old(self).source).subrange(
                    r.discarded as int,
                    r.discarded + r.played,
                ),
            ),
            is_peak(r.samples@, r.peak as int),
            exists|ready: int, backlog: int|
                #[trigger] fills(*old(self), *final(self), r, ready, backlog),
            source_ring(final(self).source) == source_ring(old(self).source),
    {
        let ghost all = upcoming(self.source);
        let ready: usize = self.source.occupied();
        self.prebuffered = may_play(self.prebuffered, ready);
        let backlog: usize = self.source.occupied();
        let discarded: usize = self.discard(samples_to_discard(backlog));
        assert(discarded == excess(backlog as int));
        assert(discarded + seen(self.source) >= backlog);
        let ghost rest = upcoming(self.source);
        let mut samples: Vec<i16> = Vec::new();
        let mut played: usize = 0;
        assert(rest.take(0) =~= Seq::empty());
        assert(rest.skip(0) =~= rest);
        assert(samples@ =~= silence(0));
        while samples.len() < max_frames
            invariant
                samples@.len() <= max_frames,
                samples@.len() < max_frames ==> samples@.len() % (CHUNK as nat) == 0,
                played <= samples@.len(),
                played <= rest.len(),
                upcoming(self.source) == rest.skip(played as int),
                plays(samples@, samples@.len() as int, rest.take(played as int)),
                rest == all.skip(discarded as int),
                discarded + rest.len() == all.len(),
                backlog <= all.len(),
                !self.prebuffered ==> played == 0,
                self.prebuffered ==> discarded + played + seen(self.source) >= backlog,
                self.prebuffered ==> played == samples@.len() || discarded + played >= backlog,
                self.prebuffered ==> forall|i: int|
                    0 <= i < samples@.len() && discarded + i < backlog ==> #[trigger] samples@[i]
                        == all[discarded + i],
                self.prebuffered && backlog == all.len() ==> forall|i: int|
                    0 <= i < samples@.len() && discarded + i >= backlog ==> #[trigger] samples@[i]
                        == 0,
                !self.prebuffered ==> samples@ == silence(samples@.len() as int),
                self.prebuffered == (old(self).prebuffered || ready >= PREBUFFER_SAMPLES),
                source_ring(self.source) == source_ring(old(self).source),
            decreases max_frames - samples.len(),
        {
            let start: usize = samples.len();
            let want: usize = if max_frames - start < CHUNK {
                max_frames - start
            } else {
                CHUNK
            };
            let mut chunk: Vec<i16> = if self.prebuffered {
                self.source.pop(want)
            } else {
                Vec::new()
            };
            let got: usize = chunk.len();
            let ghost came = chunk@;
            chunk.resize(want, 0);
            assert(chunk@ =~= came + silence(want - got));
            let ghost before = samples@;
            samples.append(&mut chunk);
            proof {
                assert(samples@ =~= before + (came + silence(want - got)));
                let now = rest.take(played + got);
                let n = samples@.len() as int;
                assert(((n - 1) / (CHUNK as int)) * CHUNK == start) by {
                    assert(start % CHUNK == 0);
                    assert(0 < n - start <= CHUNK);
                }
                assert(samples@.subrange(start as int, n) =~= came + silence(want - got));
                assert(now.skip(played as int) =~= came) by {
                    if self.prebuffered {
                        assert(came =~= rest.skip(played as int).take(got as int));
                    }
                }
                assert(now.take(played as int) =~= rest.take(played as int));
                assert(before.take(start as int) =~= samples@.take(start as int));
                plays_prefix(before, samples@, start as int, rest.take(played as int));
                assert(plays(samples@, start as int, now.take(played as int)));
                assert(rest.skip(played as int).skip(got as int) =~= rest.skip(played + got));
                if !self.prebuffered {
                    assert(samples@ =~= silence(samples@.len() as int));
                }
                if self.prebuffered {
                    assert forall|i: int|
                        0 <= i < samples@.len() && discarded + i
                            < backlog implies #[trigger] samples@[i] == all[discarded + i] by {
                        if i < start {
                            assert(samples@[i] == before[i]);
                        } else {
                            assert(samples@[i] == came[i - start]);
                            assert(came[i - start] == now[i]);
                        }
                    }
                    if backlog == all.len() {
                        assert forall|i: int|
                            0 <= i < samples@.len() && discarded + i
                                >= backlog implies #[trigger] samples@[i] == 0 by {
                            if i < start {
                                assert(samples@[i] == before[i]);
                            } else {
                                assert(samples@[i] == (came + silence(want - got))[i - start]);
                            }
                        }
                    }
                }
            }
            played = played + got;
        }
        let peak: u16 = peak_of(&samples);
        proof {
            assert(all.skip(discarded as int).skip(played as int) =~= all.skip(
                discarded + played,
            ));
            assert(rest.take(played as int) =~= all.subrange(
                discarded as int,
                discarded + played,
            ));
        }
        let r = Filled { samples, peak, discarded, played };
        assert(fills(*old(self), *self, r, ready as int, backlog as int));
        r
    }
}

// ---------------------------------------------------------------------------
// Capture

/// The sample in two bytes, the less significant first.
pub open spec fn sample_value(low: u8, high: u8) -> i16 {
    let n = low + 256 * high;
    if n >= 0x8000 {
        (n - 0x1_0000) as i16
    } else {
        n as i16
    }
}

/// The samples that `bytes` hold, two bytes each; a last single byte does not
/// count.
pub open spec fn samples_of(bytes: Seq<u8>) -> Seq<i16> {
    Seq::new(bytes.len() / 2, |i: int| sample_value(bytes[2 * i], bytes[2 * i + 1]))
}

/// The samples in the first `n_bytes` of a buffer, or in all of it where it is
/// shorter.
pub fn captured_samples(bytes: &[u8], n_bytes: usize) -> (samples: Vec<i16>)
    ensures
        samples@ == samples_of(
            bytes@.take(
                if n_bytes < bytes@.len() {
                    n_bytes as int
                } else {
                    bytes@.len() as int
                },
            ),
        ),
{
    let n: usize = if n_bytes < bytes.len() {
        n_bytes
    } else {
        bytes.len()
    };
    let mut samples: Vec<i16> = Vec::new();
    let mut i: usize = 0;
    while i < n / 2
        invariant
            i <= n / 2,
            n <= bytes@.len(),
            samples@.len() == i,
            forall|j: int|
                0 <= j < i ==> (#[trigger] samples@[j]) == sample_value(
                    bytes@[2 * j],
                    bytes@[2 * j + 1],
                ),
        decreases n / 2 - i,
    {
        let v: i32 = bytes[2 * i] as i32 + 256 * (bytes[2 * i + 1] as i32);
        let s: i16 = if v >= 0x8000 {
            (v - 0x1_0000) as i16
        } else {
            v as i16
        };
        samples.push(s);
        i = i + 1;
    }
    assert(samples@ =~= samples_of(bytes@.take(n as int)));
    samples
}

/// What the microphone gives while it is muted: as much silence.
pub open spec fn unless_muted(samples: Seq<i16>, muted: bool) -> Seq<i16> {
    if muted {
        silence(samples.len() as int)
    } else {
        samples
    }
}

/// Hands captured samples on, silence in their place while the microphone is
/// muted, and gives the loudest of what was handed on.
pub fn capture(sink: &mut Option<SampleSink>, samples: Vec<i16>, muted: bool) -> (peak: u16)
    ensures
        fed(*old(sink), *final(sink), unless_muted(samples@, muted)),
        is_peak(unless_muted(samples@, muted), peak as int),
{
    let n: usize = samples.len();
    let heard: Vec<i16> = if muted {
        let mut quiet: Vec<i16> = Vec::new();
        quiet.resize(n, 0);
        assert(quiet@ =~= silence(n as int));
        quiet
    } else {
        samples
    };
    push_to(sink, &heard);
    peak_of(&heard)
}

// ---------------------------------------------------------------------------
// Laws

proof fn pcm_len(samples: Seq<i16>)
    ensures
        pcm_bytes(samples).len() == 2 * samples.len(),
    decreases samples.len(),
{
    if samples.len() > 0 {
        pcm_len(samples.drop_last());
    }
}

/// Samples written as bytes are read back as they were.
pub proof fn pcm_reads_back(samples: Seq<i16>)
    ensures
        samples_of(pcm_bytes(samples)) == samples,
    decreases samples.len(),
{
    pcm_len(samples);
    if samples.len() > 0 {
        let head = samples.drop_last();
        pcm_reads_back(head);
        pcm_len(head);
        assert forall|i: int| 0 <= i < samples.len() implies samples_of(pcm_bytes(samples))[i]
            == samples[i] by {
            if i < head.len() {
                assert(samples_of(pcm_bytes(head))[i] == head[i]);
            }
        }
    }
    assert(samples_of(pcm_bytes(samples)) =~= samples);
}

/// While the microphone is muted nothing but silence is sent, at level zero.
pub proof fn muted_is_silent(samples: Seq<i16>, peak: int)
    requires
        is_peak(unless_muted(samples, true), peak),
    ensures
        peak == 0,
        forall|i: int|
            0 <= i < samples.len() ==> (#[trigger] unless_muted(samples, true)[i]) == 0,
{
}

/// Cutting a backlog never empties the ring below the target, and leaves one
/// that is not past the ceiling alone.
pub proof fn backlog_is_cut_to_target(occupied: int)
    requires
        0 <= occupied,
    ensures
        occupied <= MAX_BUFFERED_SAMPLES ==> excess(occupied) == 0,
        occupied > MAX_BUFFERED_SAMPLES ==> occupied - excess(occupied) == TARGET_BUFFERED_SAMPLES,
{
}

} // verus!
