//! Tones: digits, line status, ringing.
//!
//! What a sound is made of is a score: stretches of two summed frequencies and
//! of silence. What is heard when is decided by the player: sounds wait in
//! line, one at a time is written out in small chunks, and between two chunks
//! a sound can be cut off. Ringing goes on until it is stopped.

use vstd::prelude::*;

use crate::media::record::{pcm_bytes, push_pcm};
use crate::text::{push_all, texts};

verus! {

/// Samples per second.
pub const SAMPLE_RATE: u32 = 8000;

/// Silence on both sides of a tone, in samples.
pub const PAD_SAMPLES: usize = 240;

/// How many bytes are written between two chances to cut a sound off: 20 ms.
pub const CHUNK_BYTES: usize = 320;

/// How long a writer with nothing to write waits after a chunk of silence.
pub const CHUNK_MS: u64 = 20;

/// A part of a sound.
#[derive(Debug, Clone, Copy, PartialEq, Eq, Structural)]
pub enum Segment {
    /// Two frequencies in Hz, faded in and out, with silence on both sides.
    Tone { low: u32, high: u32, duration_ms: u32, fade_samples: usize },
    /// So many samples of silence.
    Silence { samples: usize },
}

impl Segment {
    /// How many samples the part takes.
    pub open spec fn len(self) -> int {
        match self {
            Segment::Tone { duration_ms, .. } => 2 * PAD_SAMPLES + 8 * duration_ms,
            Segment::Silence { samples } => samples as int,
        }
    }
}

/// How many samples a score takes.
pub open spec fn score_len(score: Seq<Segment>) -> int
    decreases score.len(),
{
    if score.len() == 0 {
        0
    } else {
        score_len(score.drop_last()) + score.last().len()
    }
}

// ---------------------------------------------------------------------------
// Scores

/// The row and column frequency of a key.
pub open spec fn key_frequencies(digit: char) -> Option<(u32, u32)> {
    if digit == '1' {
        Some((697u32, 1209u32))
    } else if digit == '2' {
        Some((697u32, 1336u32))
    } else if digit == '3' {
        Some((697u32, 1477u32))
    } else if digit == '4' {
        Some((770u32, 1209u32))
    } else if digit == '5' {
        Some((770u32, 1336u32))
    } else if digit == '6' {
        Some((770u32, 1477u32))
    } else if digit == '7' {
        Some((852u32, 1209u32))
    } else if digit == '8' {
        Some((852u32, 1336u32))
    } else if digit == '9' {
        Some((852u32, 1477u32))
    } else if digit == '*' {
        Some((941u32, 1209u32))
    } else if digit == '0' {
        Some((941u32, 1336u32))
    } else if digit == '#' {
        Some((941u32, 1477u32))
    } else {
        None
    }
}

/// The row and column frequency of a key.
pub fn dtmf_frequencies(digit: char) -> (r: Option<(u32, u32)>)
    ensures
        r == key_frequencies(digit),
{
    match digit {
        '1' => Some((697, 1209)),
        '2' => Some((697, 1336)),
        '3' => Some((697, 1477)),
        '4' => Some((770, 1209)),
        '5' => Some((770, 1336)),
        '6' => Some((770, 1477)),
        '7' => Some((852, 1209)),
        '8' => Some((852, 1336)),
        '9' => Some((852, 1477)),
        '*' => Some((941, 1209)),
        '0' => Some((941, 1336)),
        '#' => Some((941, 1477)),
        _ => None,
    }
}

/// The score of a key: 120 ms.
pub open spec fn key_score(digit: char) -> Option<Seq<Segment>> {
    match key_frequencies(digit) {
        Some((low, high)) => Some(
            seq![Segment::Tone { low, high, duration_ms: 120, fade_samples: 160 }],
        ),
        None => None,
    }
}

/// The score of a key.
pub fn generate_tone(digit: char) -> (r: Option<Vec<Segment>>)
    ensures
        match r {
            Some(v) => key_score(digit) == Some(v@),
            None => key_score(digit) is None,
        },
{
    match dtmf_frequencies(digit) {
        Some((low, high)) => {
            let v: Vec<Segment> = vec![
                Segment::Tone { low, high, duration_ms: 120, fade_samples: 160 },
            ];
            assert(v@ =~= key_score(digit)->0);
            Some(v)
        },
        None => None,
    }
}

/// The score of the dial tone: six seconds.
pub open spec fn dial_score() -> Seq<Segment> {
    seq![Segment::Tone { low: 350, high: 440, duration_ms: 6000, fade_samples: 400 }]
}

/// The score of the dial tone.
pub fn generate_dial_tone() -> (v: Vec<Segment>)
    ensures
        v@ == dial_score(),
{
    let v: Vec<Segment> = vec![
        Segment::Tone { low: 350, high: 440, duration_ms: 6000, fade_samples: 400 },
    ];
    assert(v@ =~= dial_score());
    v
}

/// A tone that goes on and off so many times.
pub open spec fn cadence(
    low: u32,
    high: u32,
    fade_samples: usize,
    on_ms: u32,
    off_ms: u32,
    cycles: nat,
) -> Seq<Segment>
    decreases cycles,
{
    if cycles == 0 {
        Seq::empty()
    } else {
        cadence(low, high, fade_samples, on_ms, off_ms, (cycles - 1) as nat).push(
            Segment::Tone { low, high, duration_ms: on_ms, fade_samples },
        ).push(Segment::Silence { samples: (8 * off_ms) as usize })
    }
}

/// A tone that goes on and off so many times.
pub fn generate_cadence_tone(
    low: u32,
    high: u32,
    fade_samples: usize,
    on_ms: u32,
    off_ms: u32,
    cycles: usize,
) -> (v: Vec<Segment>)
    requires
        8 * off_ms <= u32::MAX,
    ensures
        v@ == cadence(low, high, fade_samples, on_ms, off_ms, cycles as nat),
{
    let mut v: Vec<Segment> = Vec::new();
    let mut i: usize = 0;
    while i < cycles
        invariant
            i <= cycles,
            8 * off_ms <= u32::MAX,
            v@ == cadence(low, high, fade_samples, on_ms, off_ms, i as nat),
        decreases cycles - i,
    {
        v.push(Segment::Tone { low, high, duration_ms: on_ms, fade_samples });
        v.push(Segment::Silence { samples: (8 * off_ms) as usize });
        i = i + 1;
    }
    v
}

/// The score of the busy signal: half a second on, half a second off.
pub open spec fn busy_score() -> Seq<Segment> {
    cadence(480, 620, 60, 500, 500, 3)
}

/// The score of the busy signal.
pub fn generate_busy_tone() -> (v: Vec<Segment>)
    ensures
        v@ == busy_score(),
{
    generate_cadence_tone(480, 620, 60, 500, 500, 3)
}

/// The score of the reorder signal: the same, twice as fast.
pub open spec fn reorder_score() -> Seq<Segment> {
    cadence(480, 620, 60, 250, 250, 4)
}

/// The score of the reorder signal.
pub fn generate_reorder_tone() -> (v: Vec<Segment>)
    ensures
        v@ == reorder_score(),
{
    generate_cadence_tone(480, 620, 60, 250, 250, 4)
}

/// One cycle of what a caller hears while the other side rings.
pub open spec fn ringback_score() -> Seq<Segment> {
    cadence(440, 480, 200, 2000, 4000, 1)
}

/// One cycle of what a caller hears while the other side rings.
pub fn generate_ringback_cycle() -> (v: Vec<Segment>)
    ensures
        v@ == ringback_score(),
{
    generate_cadence_tone(440, 480, 200, 2000, 4000, 1)
}

/// One cycle of the ring for an incoming call.
pub open spec fn incoming_score() -> Seq<Segment> {
    cadence(750, 800, 150, 1000, 3000, 1)
}

/// One cycle of the ring for an incoming call.
pub fn generate_incoming_ring_cycle() -> (v: Vec<Segment>)
    ensures
        v@ == incoming_score(),
{
    generate_cadence_tone(750, 800, 150, 1000, 3000, 1)
}

/// The score of the cue that a call has ended: two soft falling notes.
pub open spec fn disconnect_score() -> Seq<Segment> {
    seq![
        Segment::Tone { low: 520, high: 520, duration_ms: 110, fade_samples: 200 },
        Segment::Silence { samples: 320 },
        Segment::Tone { low: 370, high: 370, duration_ms: 160, fade_samples: 200 },
    ]
}

/// The score of the cue that a call has ended.
pub fn generate_disconnect_tone() -> (v: Vec<Segment>)
    ensures
        v@ == disconnect_score(),
{
    let v: Vec<Segment> = vec![
        Segment::Tone { low: 520, high: 520, duration_ms: 110, fade_samples: 200 },
        Segment::Silence { samples: 320 },
        Segment::Tone { low: 370, high: 370, duration_ms: 160, fade_samples: 200 },
    ];
    assert(v@ =~= disconnect_score());
    v
}

/// The samples, two bytes each.
pub fn samples_to_bytes(samples: &[i16]) -> (bytes: Vec<u8>)
    ensures
        bytes@ == pcm_bytes(samples@),
{
    let mut bytes: Vec<u8> = Vec::new();
    push_pcm(&mut bytes, samples);
    assert(bytes@ =~= pcm_bytes(samples@));
    bytes
}

// ---------------------------------------------------------------------------
// Sounds

/// A sound in line. Ringing carries the epoch in which it was started.
#[derive(Debug, Clone, Copy, PartialEq, Eq, Structural)]
pub enum QueuedSound {
    Digit(char),
    DialTone,
    BusyTone,
    ReorderTone,
    Disconnect,
    Ringback(u64),
    IncomingRing(u64),
}

/// By what a sound can be cut off.
#[derive(Debug, Clone, Copy, PartialEq, Eq, Structural)]
pub enum SoundKind {
    LineTone,
    Ringback,
    IncomingRing,
    /// Short sounds that always play to their end.
    Other,
}

impl QueuedSound {
    /// By what the sound can be cut off.
    pub open spec fn kind_of(self) -> SoundKind {
        match self {
            QueuedSound::DialTone | QueuedSound::BusyTone | QueuedSound::ReorderTone =>
                SoundKind::LineTone,
            QueuedSound::Ringback(_) => SoundKind::Ringback,
            QueuedSound::IncomingRing(_) => SoundKind::IncomingRing,
            QueuedSound::Digit(_) | QueuedSound::Disconnect => SoundKind::Other,
        }
    }

    /// What the sound is made of. A key without a tone makes no sound.
    pub open spec fn score(self) -> Seq<Segment> {
        match self {
            QueuedSound::Digit(d) => match key_score(d) {
                Some(s) => s,
                None => Seq::empty(),
            },
            QueuedSound::DialTone => dial_score(),
            QueuedSound::BusyTone => busy_score(),
            QueuedSound::ReorderTone => reorder_score(),
            QueuedSound::Disconnect => disconnect_score(),
            QueuedSound::Ringback(_) => ringback_score(),
            QueuedSound::IncomingRing(_) => incoming_score(),
        }
    }

    /// How many bytes the sound takes.
    pub open spec fn size(self) -> int {
        2 * score_len(self.score())
    }

    /// How many bytes the sound takes.
    pub fn byte_len(&self) -> (n: usize)
        ensures
            n == self.size(),
    {
        proof {
            sizes(*self);
        }
        match *self {
            QueuedSound::Digit(d) => {
                if dtmf_frequencies(d).is_some() {
                    2_880
                } else {
                    0
                }
            },
            QueuedSound::DialTone => 96_960,
            QueuedSound::BusyTone => 50_880,
            QueuedSound::ReorderTone => 35_840,
            QueuedSound::Disconnect => 6_880,
            QueuedSound::Ringback(_) => 96_960,
            QueuedSound::IncomingRing(_) => 64_960,
        }
    }
}

/// How many bytes each of the sounds takes.
pub proof fn sizes(sound: QueuedSound)
    ensures
        sound.size() == (match sound {
            QueuedSound::Digit(d) => if key_frequencies(d) is Some {
                2_880int
            } else {
                0
            },
            QueuedSound::DialTone => 96_960,
            QueuedSound::BusyTone => 50_880,
            QueuedSound::ReorderTone => 35_840,
            QueuedSound::Disconnect => 6_880,
            QueuedSound::Ringback(_) => 96_960,
            QueuedSound::IncomingRing(_) => 64_960,
        }),
{
    reveal_with_fuel(score_len, 4);
    match sound {
        QueuedSound::Digit(d) => {
            if key_frequencies(d) is Some {
                assert(key_score(d)->0.drop_last() =~= Seq::empty());
            }
        },
        QueuedSound::DialTone => {
            assert(dial_score().drop_last() =~= Seq::empty());
        },
        QueuedSound::BusyTone => {
            cadence_len(480, 620, 60, 500, 500, 3);
        },
        QueuedSound::ReorderTone => {
            cadence_len(480, 620, 60, 250, 250, 4);
        },
        QueuedSound::Disconnect => {
            let s = disconnect_score();
            let s2 = s.drop_last();
            let s1 = s2.drop_last();
            assert(s1.drop_last() =~= Seq::empty());
            assert(s2.last() == s[1]);
            assert(s1.last() == s[0]);
        },
        QueuedSound::Ringback(_) => {
            cadence_len(440, 480, 200, 2000, 4000, 1);
        },
        QueuedSound::IncomingRing(_) => {
            cadence_len(750, 800, 150, 1000, 3000, 1);
        },
    }
}

/// How long a cadence takes: as many times one tone and one pause.
pub proof fn cadence_len(
    low: u32,
    high: u32,
    fade_samples: usize,
    on_ms: u32,
    off_ms: u32,
    cycles: nat,
)
    requires
        8 * off_ms <= u32::MAX,
    ensures
        score_len(cadence(low, high, fade_samples, on_ms, off_ms, cycles)) == cycles * (2
            * PAD_SAMPLES + 8 * on_ms + 8 * off_ms),
    decreases cycles,
{
    if cycles == 0 {
        assert(score_len(cadence(low, high, fade_samples, on_ms, off_ms, 0)) == 0);
        assert(0 * (2 * PAD_SAMPLES + 8 * on_ms + 8 * off_ms) == 0) by (nonlinear_arith);
    } else {
        let fewer = (cycles - 1) as nat;
        cadence_len(low, high, fade_samples, on_ms, off_ms, fewer);
        let head = cadence(low, high, fade_samples, on_ms, off_ms, fewer);
        let tone = Segment::Tone { low, high, duration_ms: on_ms, fade_samples };
        let pause = Segment::Silence { samples: (8 * off_ms) as usize };
        let one = 2 * PAD_SAMPLES + 8 * on_ms + 8 * off_ms;
        assert(head.push(tone).push(pause).drop_last() =~= head.push(tone));
        assert(head.push(tone).drop_last() =~= head);
        assert(score_len(head.push(tone)) == score_len(head) + tone.len());
        assert(score_len(head.push(tone).push(pause)) == score_len(head.push(tone)) + pause.len());
        assert(cycles * one == fewer * one + one) by (nonlinear_arith)
            requires
                cycles == fewer + 1,
        ;
    }
}

// ---------------------------------------------------------------------------
// The player

/// The sound being written out.
#[derive(Debug, Clone, Copy, PartialEq, Eq, Structural)]
pub struct Playing {
    pub sound: QueuedSound,
    /// How many of its bytes have been written.
    pub offset: usize,
    /// The epoch of line tones when it began.
    pub line_epoch: u64,
}

/// What the writer is to do.
#[derive(Debug, Clone, Copy, PartialEq, Eq, Structural)]
pub enum ToneStep {
    /// Write a chunk of silence and wait: nothing is in line.
    Silence,
    /// Write the bytes `from..to` of a sound.
    Chunk { sound: QueuedSound, from: usize, to: usize },
    /// Write nothing and ask again: a sound has begun or ended.
    Again,
}

/// The player: what is in line, what is being written, and the epochs that
/// tell whether a sound has been stopped.
#[derive(Debug)]
pub struct DtmfTonePlayer {
    pub queue: Vec<QueuedSound>,
    pub current: Option<Playing>,
    pub line_tone_epoch: u64,
    pub ringback_epoch: u64,
    pub incoming_ring_epoch: u64,
}

/// The player as a plain value.
pub struct PlayerView {
    pub queue: Seq<QueuedSound>,
    pub current: Option<Playing>,
    pub line_tone_epoch: u64,
    pub ringback_epoch: u64,
    pub incoming_ring_epoch: u64,
}

impl View for DtmfTonePlayer {
    type V = PlayerView;

    open spec fn view(&self) -> PlayerView {
        PlayerView {
            queue: self.queue@,
            current: self.current,
            line_tone_epoch: self.line_tone_epoch,
            ringback_epoch: self.ringback_epoch,
            incoming_ring_epoch: self.incoming_ring_epoch,
        }
    }
}

/// The epoch after `e`, wrapping around.
pub open spec fn next_epoch(e: u64) -> u64 {
    ((e + 1) % 0x1_0000_0000_0000_0000) as u64
}

impl PlayerView {
    /// Whether the sound being written has been stopped.
    pub open spec fn stopped(self, p: Playing) -> bool {
        match p.sound {
            QueuedSound::DialTone | QueuedSound::BusyTone | QueuedSound::ReorderTone =>
                self.line_tone_epoch != p.line_epoch,
            QueuedSound::Ringback(e) => self.ringback_epoch != e,
            QueuedSound::IncomingRing(e) => self.incoming_ring_epoch != e,
            QueuedSound::Digit(_) | QueuedSound::Disconnect => false,
        }
    }

    /// Whether a sound that has come to its end begins anew.
    pub open spec fn loops(self, sound: QueuedSound) -> bool {
        match sound {
            QueuedSound::Ringback(e) => self.ringback_epoch == e,
            QueuedSound::IncomingRing(e) => self.incoming_ring_epoch == e,
            _ => false,
        }
    }

    /// One step of the writer.
    pub open spec fn stepped(self) -> (PlayerView, ToneStep) {
        match self.current {
            None => if self.queue.len() == 0 {
                (self, ToneStep::Silence)
            } else {
                let p = Playing {
                    sound: self.queue[0],
                    offset: 0,
                    line_epoch: self.line_tone_epoch,
                };
                (
                    PlayerView { queue: self.queue.skip(1), current: Some(p), ..self },
                    ToneStep::Again,
                )
            },
            Some(p) => if p.offset >= p.sound.size() {
                (
                    PlayerView {
                        queue: if self.loops(p.sound) {
                            self.queue.push(p.sound)
                        } else {
                            self.queue
                        },
                        current: None,
                        ..self
                    },
                    ToneStep::Again,
                )
            } else if self.stopped(p) {
                (PlayerView { current: None, ..self }, ToneStep::Again)
            } else {
                let to: usize = if p.offset + CHUNK_BYTES < p.sound.size() {
                    (p.offset + CHUNK_BYTES) as usize
                } else {
                    p.sound.size() as usize
                };
                (
                    PlayerView { current: Some(Playing { offset: to, ..p }), ..self },
                    ToneStep::Chunk { sound: p.sound, from: p.offset, to },
                )
            },
        }
    }

    /// With one more sound in line.
    pub open spec fn queued(self, sound: QueuedSound) -> PlayerView {
        PlayerView { queue: self.queue.push(sound), ..self }
    }
}

impl DtmfTonePlayer {
    /// A player with nothing in line.
    pub fn new() -> (r: Self)
        ensures
            r@ == (PlayerView {
                queue: Seq::empty(),
                current: None,
                line_tone_epoch: 0,
                ringback_epoch: 0,
                incoming_ring_epoch: 0,
            }),
    {
        DtmfTonePlayer {
            queue: Vec::new(),
            current: None,
            line_tone_epoch: 0,
            ringback_epoch: 0,
            incoming_ring_epoch: 0,
        }
    }

    fn enqueue(&mut self, sound: QueuedSound)
        ensures
            final(self)@ == old(self)@.queued(sound),
    {
        self.queue.push(sound);
    }

    /// Puts the tone of a key in line; nothing for a key without one.
    pub fn play(&mut self, digit: char)
        ensures
            final(self)@ == (if key_frequencies(digit) is Some {
                old(self)@.queued(QueuedSound::Digit(digit))
            } else {
                old(self)@
            }),
    {
        if dtmf_frequencies(digit).is_some() {
            self.enqueue(QueuedSound::Digit(digit));
        }
    }

    /// Puts the dial tone in line.
    pub fn play_dial_tone(&mut self)
        ensures
            final(self)@ == old(self)@.queued(QueuedSound::DialTone),
    {
        self.enqueue(QueuedSound::DialTone);
    }

    /// Puts the busy signal in line.
    pub fn play_busy_tone(&mut self)
        ensures
            final(self)@ == old(self)@.queued(QueuedSound::BusyTone),
    {
        self.enqueue(QueuedSound::BusyTone);
    }

    /// Puts the reorder signal in line.
    pub fn play_reorder_tone(&mut self)
        ensures
            final(self)@ == old(self)@.queued(QueuedSound::ReorderTone),
    {
        self.enqueue(QueuedSound::ReorderTone);
    }

    /// Puts the cue that a call has ended in line.
    pub fn play_disconnect_tone(&mut self)
        ensures
            final(self)@ == old(self)@.queued(QueuedSound::Disconnect),
    {
        self.enqueue(QueuedSound::Disconnect);
    }

    /// Cuts off a dial, busy or reorder tone that is being written.
    pub fn stop_line_tone(&mut self)
        ensures
            final(self)@ == (PlayerView {
                line_tone_epoch: next_epoch(old(self).line_tone_epoch),
                ..old(self)@
            }),
    {
        self.line_tone_epoch = self.line_tone_epoch.wrapping_add(1);
    }

    /// Starts what a caller hears while the other side rings, until it is
    /// stopped.
    pub fn play_ringback_tone(&mut self)
        ensures
            final(self)@ == (PlayerView {
                ringback_epoch: next_epoch(old(self).ringback_epoch),
                ..old(self)@
            }).queued(QueuedSound::Ringback(next_epoch(old(self).ringback_epoch))),
    {
        self.ringback_epoch = self.ringback_epoch.wrapping_add(1);
        let epoch: u64 = self.ringback_epoch;
        self.enqueue(QueuedSound::Ringback(epoch));
    }

    /// Stops what a caller hears while the other side rings.
    pub fn stop_ringback(&mut self)
        ensures
            final(self)@ == (PlayerView {
                ringback_epoch: next_epoch(old(self).ringback_epoch),
                ..old(self)@
            }),
    {
        self.ringback_epoch = self.ringback_epoch.wrapping_add(1);
    }

    /// Starts the ring for an incoming call, until it is stopped.
    pub fn play_incoming_ringtone(&mut self)
        ensures
            final(self)@ == (PlayerView {
                incoming_ring_epoch: next_epoch(old(self).incoming_ring_epoch),
                ..old(self)@
            }).queued(QueuedSound::IncomingRing(next_epoch(old(self).incoming_ring_epoch))),
    {
        self.incoming_ring_epoch = self.incoming_ring_epoch.wrapping_add(1);
        let epoch: u64 = self.incoming_ring_epoch;
        self.enqueue(QueuedSound::IncomingRing(epoch));
    }

    /// Stops the ring for an incoming call.
    pub fn stop_incoming_ringtone(&mut self)
        ensures
            final(self)@ == (PlayerView {
                incoming_ring_epoch: next_epoch(old(self).incoming_ring_epoch),
                ..old(self)@
            }),
    {
        self.incoming_ring_epoch = self.incoming_ring_epoch.wrapping_add(1);
    }

    /// What the writer is to do next.
    pub fn step(&mut self) -> (r: ToneStep)
        ensures
            final(self)@ == old(self)@.stepped().0,
            r == old(self)@.stepped().1,
    {
        match self.current {
            None => {
                if self.queue.len() == 0 {
                    return ToneStep::Silence;
                }
                let ghost q = self.queue@;
                let sound = self.queue.remove(0);
                assert(self.queue@ =~= q.skip(1));
                self.current = Some(
                    Playing { sound, offset: 0, line_epoch: self.line_tone_epoch },
                );
                ToneStep::Again
            },
            Some(p) => {
                let size: usize = p.sound.byte_len();
                if p.offset >= size {
                    let again = match p.sound {
                        QueuedSound::Ringback(e) => self.ringback_epoch == e,
                        QueuedSound::IncomingRing(e) => self.incoming_ring_epoch == e,
                        _ => false,
                    };
                    self.current = None;
                    if again {
                        self.queue.push(p.sound);
                    }
                    return ToneStep::Again;
                }
                let stopped = match p.sound {
                    QueuedSound::DialTone | QueuedSound::BusyTone | QueuedSound::ReorderTone => {
                        self.line_tone_epoch != p.line_epoch
                    },
                    QueuedSound::Ringback(e) => self.ringback_epoch != e,
                    QueuedSound::IncomingRing(e) => self.incoming_ring_epoch != e,
                    QueuedSound::Digit(_) | QueuedSound::Disconnect => false,
                };
                if stopped {
                    self.current = None;
                    return ToneStep::Again;
                }
                let to: usize = if size - p.offset > CHUNK_BYTES {
                    p.offset + CHUNK_BYTES
                } else {
                    size
                };
                self.current = Some(
                    Playing { sound: p.sound, offset: to, line_epoch: p.line_epoch },
                );
                ToneStep::Chunk { sound: p.sound, from: p.offset, to }
            },
        }
    }
}

fn push_text(v: &mut Vec<String>, t: &str)
    ensures
        texts(final(v)@) == texts(old(v)@).push(t@),
{
    let mut s = String::new();
    push_all(&mut s, t);
    assert(s@ =~= t@);
    let ghost sv = s@;
    v.push(s);
    assert(texts(v@) =~= texts(old(v)@).push(sv));
}

/// How the program that plays the bytes is called: raw mono samples of 16
/// bits, read from standard input.
pub open spec fn player_command(target: Option<Seq<char>>) -> Seq<Seq<char>> {
    let base = seq![
        "--raw"@,
        "--rate"@,
        "8000"@,
        "--channels"@,
        "1"@,
        "--format"@,
        "s16"@,
        "--media-role"@,
        "Music"@,
        "-"@,
    ];
    match target {
        Some(t) => base.push("--target"@).push(t),
        None => base,
    }
}

/// The arguments of the program that plays the bytes.
pub fn player_arguments(target: &Option<String>) -> (v: Vec<String>)
    ensures
        texts(v@) == player_command(
            match target {
                Some(t) => Some(t@),
                None => None,
            },
        ),
{
    let mut v: Vec<String> = Vec::new();
    assert(texts(v@) =~= Seq::empty());
    push_text(&mut v, "--raw");
    push_text(&mut v, "--rate");
    push_text(&mut v, "8000");
    push_text(&mut v, "--channels");
    push_text(&mut v, "1");
    push_text(&mut v, "--format");
    push_text(&mut v, "s16");
    push_text(&mut v, "--media-role");
    push_text(&mut v, "Music");
    push_text(&mut v, "-");
    assert(texts(v@) =~= player_command(None));
    match target {
        Some(t) => {
            push_text(&mut v, "--target");
            push_text(&mut v, t.as_str());
        },
        None => {},
    }
    v
}

// ---------------------------------------------------------------------------
// Laws

/// Stopping one kind of ringing, or the line tones, does not touch a sound of
/// another kind: what the writer does with it is the same.
pub proof fn stops_are_independent(s: PlayerView, p: Playing, e: u64)
    requires
        s.current == Some(p),
    ensures
        p.sound.kind_of() != SoundKind::LineTone ==> (PlayerView {
            line_tone_epoch: e,
            ..s
        }).stepped().1 == s.stepped().1,
        p.sound.kind_of() != SoundKind::Ringback ==> (PlayerView {
            ringback_epoch: e,
            ..s
        }).stepped().1 == s.stepped().1,
        p.sound.kind_of() != SoundKind::IncomingRing ==> (PlayerView {
            incoming_ring_epoch: e,
            ..s
        }).stepped().1 == s.stepped().1,
{
}

/// A digit or the disconnect cue is never cut off.
pub proof fn short_sounds_play_out(s: PlayerView, p: Playing)
    requires
        s.current == Some(p),
        p.sound.kind_of() == SoundKind::Other,
        p.offset < p.sound.size(),
    ensures
        s.stepped().1 matches ToneStep::Chunk { sound, from, to } && sound == p.sound && from
            == p.offset && to > from,
{
    sizes(p.sound);
}

/// Ringing that was stopped is not heard again: neither another chunk of the
/// cycle being written nor another cycle.
pub proof fn stopped_ringing_ends(s: PlayerView, p: Playing)
    requires
        s.current == Some(p),
        (p.sound matches QueuedSound::Ringback(e) && s.ringback_epoch != e) || (
        p.sound matches QueuedSound::IncomingRing(e) && s.incoming_ring_epoch != e),
    ensures
        s.stepped().1 == ToneStep::Again,
        s.stepped().0.current is None,
        s.stepped().0.queue == s.queue,
{
}

/// Stopping makes the epoch another one, so that it takes effect on whatever
/// was started before.
pub proof fn epochs_move_on(e: u64)
    ensures
        next_epoch(e) != e,
{
}

/// Ringing that was not stopped goes on: at the end of a cycle the next one
/// is put in line.
pub proof fn ringing_goes_on(s: PlayerView, p: Playing)
    requires
        s.current == Some(p),
        p.offset >= p.sound.size(),
        p.sound == QueuedSound::Ringback(s.ringback_epoch) || p.sound
            == QueuedSound::IncomingRing(s.incoming_ring_epoch),
    ensures
        s.stepped().0.queue == s.queue.push(p.sound),
{
}

} // verus!
