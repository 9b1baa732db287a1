//! What holds of sounds, devices and streams of samples.

use vstd::prelude::*;

use crate::media::codec::{distance, is_nearest};
use crate::media::devices::{description_of, devices_of, NodeProps};
use crate::media::error::MediaError;
use crate::media::playback::is_peak;
use crate::media::ring::{
    fed, room, seen, seen_of, taken_in, upcoming, upcoming_of, SampleSink, SampleSource,
};
use crate::media::sender::{encodes, outgoing, took_audio, took_counts};
use crate::media::tone::{
    key_frequencies, next_epoch, player_command, score_len, Playing, PlayerView, QueuedSound, Segment,
    ToneStep,
};
use crate::text::decimal;

verus! {

// ---------------------------------------------------------------------------
// Tones

/// Keys sound by where they are on the pad: those in a row share their low
/// frequency, those in a column their high one, and the frequencies go up to the
/// right and down the pad. Nothing else sounds.
pub proof fn keys_sound_by_row_and_column(n: u8, other: char)
    requires
        1 <= n <= 9,
    ensures
        ({
            let key = key_frequencies((48 + n) as char);
            let row = if n <= 3 {
                697u32
            } else if n <= 6 {
                770
            } else {
                852
            };
            let column = if n % 3 == 1 {
                1209u32
            } else if n % 3 == 2 {
                1336
            } else {
                1477
            };
            key == Some((row, column))
        }),
        key_frequencies('*') == Some((941u32, 1209u32)),
        key_frequencies('0') == Some((941u32, 1336u32)),
        key_frequencies('#') == Some((941u32, 1477u32)),
        key_frequencies(other) is Some ==> other == '*' || other == '#' || '0' <= other <= '9',
{
}

/// What the sounds are made of: 120 ms of a key's two frequencies; six seconds
/// of 350 and 440 Hz to dial by; 480 and 620 Hz, half a second on and off three
/// times, for busy, and a quarter of a second on and off four times where a line
/// cannot be used; 440 and 480 Hz, two seconds on and four off, for the caller,
/// and 750 and 800 Hz, one second on and three off, for who is called; and two
/// notes, the second lower, at the end of a call.
pub proof fn sounds_are_what_they_are_known_by(digit: char, epoch: u64)
    ensures
        key_frequencies(digit) matches Some((low, high)) ==> QueuedSound::Digit(digit).score()
            == seq![Segment::Tone { low, high, duration_ms: 120, fade_samples: 160 }],
        key_frequencies(digit) is None ==> QueuedSound::Digit(digit).score().len() == 0,
        QueuedSound::DialTone.score() == seq![
            Segment::Tone { low: 350, high: 440, duration_ms: 6000, fade_samples: 400 },
        ],
        QueuedSound::BusyTone.score().len() == 6,
        forall|i: int|
            0 <= i < 6 ==> #[trigger] QueuedSound::BusyTone.score()[i] == if i % 2 == 0 {
                Segment::Tone { low: 480, high: 620, duration_ms: 500, fade_samples: 60 }
            } else {
                Segment::Silence { samples: 4000 }
            },
        QueuedSound::ReorderTone.score().len() == 8,
        forall|i: int|
            0 <= i < 8 ==> #[trigger] QueuedSound::ReorderTone.score()[i] == if i % 2 == 0 {
                Segment::Tone { low: 480, high: 620, duration_ms: 250, fade_samples: 60 }
            } else {
                Segment::Silence { samples: 2000 }
            },
        QueuedSound::Ringback(epoch).score() == seq![
            Segment::Tone { low: 440, high: 480, duration_ms: 2000, fade_samples: 200 },
            Segment::Silence { samples: 32000 },
        ],
        QueuedSound::IncomingRing(epoch).score() == seq![
            Segment::Tone { low: 750, high: 800, duration_ms: 1000, fade_samples: 150 },
            Segment::Silence { samples: 24000 },
        ],
        QueuedSound::Disconnect.score() == seq![
            Segment::Tone { low: 520, high: 520, duration_ms: 110, fade_samples: 200 },
            Segment::Silence { samples: 320 },
            Segment::Tone { low: 370, high: 370, duration_ms: 160, fade_samples: 200 },
        ],
{
    reveal_with_fuel(crate::media::tone::cadence, 5);
    assert(QueuedSound::DialTone.score() =~= seq![
        Segment::Tone { low: 350, high: 440, duration_ms: 6000, fade_samples: 400 },
    ]);
    assert(QueuedSound::Ringback(epoch).score() =~= seq![
        Segment::Tone { low: 440, high: 480, duration_ms: 2000, fade_samples: 200 },
        Segment::Silence { samples: 32000 },
    ]);
    assert(QueuedSound::IncomingRing(epoch).score() =~= seq![
        Segment::Tone { low: 750, high: 800, duration_ms: 1000, fade_samples: 150 },
        Segment::Silence { samples: 24000 },
    ]);
    assert(QueuedSound::Disconnect.score() =~= seq![
        Segment::Tone { low: 520, high: 520, duration_ms: 110, fade_samples: 200 },
        Segment::Silence { samples: 320 },
        Segment::Tone { low: 370, high: 370, duration_ms: 160, fade_samples: 200 },
    ]);
}

/// Sounds are written in the order in which they were put in line, from their
/// beginning, without a gap, 20 ms at a time; with nothing in line there is
/// silence.
pub proof fn sounds_are_written_in_order(s: PlayerView, sound: QueuedSound)
    ensures
        s.queued(sound).queue == s.queue.push(sound),
        s.queued(sound).current == s.current,
        s.current is None && s.queue.len() == 0 ==> s.stepped().1 == ToneStep::Silence
            && s.stepped().0 == s,
        s.current is None && s.queue.len() > 0 ==> ({
            let (next, step) = s.stepped();
            &&& step == ToneStep::Again
            &&& next.queue == s.queue.skip(1)
            &&& next.current matches Some(p) && p.sound == s.queue[0] && p.offset == 0
                && p.line_epoch == s.line_tone_epoch
        }),
        s.stepped().1 matches ToneStep::Chunk { sound: written, from, to } ==> {
            &&& s.current matches Some(p) && p.sound == written && p.offset == from
            &&& s.stepped().0.current == Some(
                Playing { sound: written, offset: to, line_epoch: s.current->0.line_epoch },
            )
            &&& from < to <= from + 320
            &&& to < from + 320 ==> to == written.size()
            &&& s.stepped().0.queue == s.queue
        },
{
    if let Some(p) = s.current {
        crate::media::tone::sizes(p.sound);
    }
}

/// A dial, busy or reorder tone is cut off as soon as line tones were stopped
/// since it began, and nothing else is by that.
pub proof fn line_tones_stop_when_told(s: PlayerView, p: Playing)
    requires
        s.current == Some(p),
        p.offset < p.sound.size(),
    ensures
        p.sound is DialTone || p.sound is BusyTone || p.sound is ReorderTone ==> (
        s.line_tone_epoch != p.line_epoch <==> s.stepped().1 == ToneStep::Again),
        p.sound is Digit || p.sound is Disconnect ==> s.stepped().1 is Chunk,
        p.sound matches QueuedSound::Ringback(e) ==> (s.ringback_epoch != e <==> s.stepped().1
            == ToneStep::Again),
        p.sound matches QueuedSound::IncomingRing(e) ==> (s.incoming_ring_epoch != e
            <==> s.stepped().1 == ToneStep::Again),
{
    crate::media::tone::sizes(p.sound);
}

/// The program that plays sounds is told that it gets raw samples of 16 bits,
/// one channel, 8000 a second, on its standard input, and where to play them if
/// that was chosen.
pub proof fn player_is_told_the_format(target: Seq<char>)
    ensures
        player_command(None) == seq![
            "--raw"@,
            "--rate"@,
            "8000"@,
            "--channels"@,
            "1"@,
            "--format"@,
            "s16"@,
            "--media-role"@,
            "Music"@,
            "-"@,
        ],
        player_command(Some(target)) == player_command(None) + seq!["--target"@, target],
{
    assert(player_command(Some(target)) =~= player_command(None) + seq!["--target"@, target]);
}

// ---------------------------------------------------------------------------
// Devices

/// What is listed of a class are its nodes that have a name, in their order and
/// each once: adding a node to those announced adds it at the end exactly if it
/// is of the class and has a name.
pub proof fn devices_are_listed_by_class(nodes: Seq<NodeProps>, node: NodeProps, class: Seq<char>)
    ensures
        devices_of(Seq::empty(), class).len() == 0,
        ({
            let before = devices_of(nodes, class);
            let after = devices_of(nodes.push(node), class);
            match (node.media_class, node.node_name) {
                (Some(c), Some(name)) => if c@ == class {
                    after == before.push((name@, description_of(node)))
                } else {
                    after == before
                },
                _ => after == before,
            }
        }),
{
    assert(nodes.push(node).drop_last() =~= nodes);
}

/// A stream is called by its application, with a dash and what that plays if it
/// says so; a device by its description, or by its name without one.
pub proof fn devices_are_called_by_what_is_known(node: NodeProps)
    ensures
        match (node.application_name, node.media_name) {
            (Some(app), Some(media)) => description_of(node) == app@ + seq![' ', '\u{2014}', ' ']
                + media@,
            (Some(app), None) => description_of(node) == app@,
            _ => match (node.node_description, node.node_name) {
                (Some(d), _) => description_of(node) == d@,
                (None, Some(n)) => description_of(node) == n@,
                _ => true,
            },
        },
{
}

// ---------------------------------------------------------------------------
// Streams

/// Filling a sink adds samples behind those that it took in before, in order and
/// from the first on; all of them where there was room for them.
pub proof fn sinks_take_samples_in_order(
    before: SampleSink,
    after: SampleSink,
    samples: Seq<i16>,
    i: int,
)
    requires
        fed(Some(before), Some(after), samples),
    ensures
        taken_in(before).len() <= taken_in(after).len() <= taken_in(before).len() + samples.len(),
        0 <= i < taken_in(before).len() ==> taken_in(after)[i] == taken_in(before)[i],
        taken_in(before).len() <= i < taken_in(after).len() ==> taken_in(after)[i] == samples[i
            - taken_in(before).len()],
        samples.len() <= room(before) ==> taken_in(after).len() == taken_in(before).len()
            + samples.len(),
        !fed(None, Some(after), samples),
        !fed(Some(before), None, samples),
        fed(None, None, samples),
{
}

/// A packet's audio: the next 20 ms of the microphone, gone from its ring; alone
/// where nothing else is there to be heard.
pub proof fn packets_take_the_next_audio(
    capture: Seq<i16>,
    capture_after: Seq<i16>,
    bridge: Seq<i16>,
    bridge_after: Seq<i16>,
    secondary: Seq<i16>,
    secondary_after: Seq<i16>,
    bridge_seen: nat,
    secondary_seen: nat,
    inject: bool,
    out: Seq<i16>,
)
    requires
        took_audio(
            capture,
            capture_after,
            bridge,
            bridge_after,
            secondary,
            secondary_after,
            bridge_seen,
            secondary_seen,
            inject,
            out,
        ),
    ensures
        out.len() == 160,
        capture.len() == 160 + capture_after.len(),
        capture_after == capture.skip(160),
        bridge.len() == 0 && (!inject || secondary.len() == 0) ==> out == capture.take(160),
        exists|n: int|
            0 <= n <= 160 && n <= bridge.len() && bridge_after == #[trigger] bridge.skip(n) && (n
                < 160 ==> bridge_seen <= n),
        exists|n: int|
            0 <= n <= 160 && n <= secondary.len() && secondary_after == #[trigger] secondary.skip(n)
                && (n < 160 ==> secondary_seen <= n),
{
    let (got, m, n) = choose|got: int, m: int, n: int|
        #[trigger] took_counts(
            capture,
            bridge,
            secondary,
            bridge_seen,
            secondary_seen,
            got,
            m,
            n,
        ) && capture_after == capture.skip(got) && bridge_after == bridge.skip(m) && secondary_after
            == secondary.skip(n) && out == outgoing(
            capture.take(got),
            bridge.take(m),
            secondary.take(n),
            inject,
        );
    assert(bridge_after == bridge.skip(m));
    assert(secondary_after == secondary.skip(n));
    if bridge.len() == 0 && (!inject || secondary.len() == 0) {
        assert(out =~= capture.take(160));
    }
}

/// The level of audio is its loudest sample, by how far it is from silence.
pub proof fn levels_are_the_loudest_sample(samples: Seq<i16>, peak: int, i: int)
    requires
        is_peak(samples, peak),
    ensures
        0 <= i < samples.len() ==> -peak <= samples[i] <= peak,
        peak > 0 ==> exists|k: int|
            0 <= k < samples.len() && (#[trigger] samples[k] == peak || samples[k] == -peak),
        samples.len() == 0 ==> peak == 0,
        peak >= 0 || samples.len() == 0,
{
    if 0 <= i < samples.len() {
        assert(crate::media::playback::loudness(samples[i]) <= peak);
    }
    if peak > 0 {
        let k = choose|k: int|
            0 <= k < samples.len() && crate::media::playback::loudness(#[trigger] samples[k])
                == peak;
        assert(samples[k] == peak || samples[k] == -peak);
    }
    if samples.len() > 0 {
        assert(crate::media::playback::loudness(samples[0]) <= peak);
    }
}

/// A part of a sound takes eight samples a millisecond, and 30 ms of silence more
/// before a tone and behind it; a sound takes two bytes for each sample of its
/// parts.
pub proof fn sounds_take_their_time(
    low: u32,
    high: u32,
    duration_ms: u32,
    fade_samples: usize,
    samples: usize,
    score: Seq<Segment>,
    part: Segment,
    sound: QueuedSound,
)
    ensures
        (Segment::Tone { low, high, duration_ms, fade_samples }).len() == 240 + 8 * duration_ms + 240,
        (Segment::Silence { samples }).len() == samples,
        score_len(Seq::empty()) == 0,
        score_len(score.push(part)) == score_len(score) + part.len(),
        sound.size() == 2 * score_len(sound.score()),
{
    assert(score.push(part).drop_last() =~= score);
}

/// A sound that has come to its end makes way for the next; only ringing that was
/// not stopped is put in line again.
pub proof fn ended_sounds_make_way(s: PlayerView, p: Playing)
    requires
        s.current == Some(p),
        p.offset >= p.sound.size(),
    ensures
        s.stepped().1 == ToneStep::Again,
        s.stepped().0.current is None,
        match p.sound {
            QueuedSound::Ringback(e) => s.stepped().0.queue == if e == s.ringback_epoch {
                s.queue.push(p.sound)
            } else {
                s.queue
            },
            QueuedSound::IncomingRing(e) => s.stepped().0.queue == if e == s.incoming_ring_epoch {
                s.queue.push(p.sound)
            } else {
                s.queue
            },
            _ => s.stepped().0.queue == s.queue,
        },
        s.stepped().0.line_tone_epoch == s.line_tone_epoch,
        s.stepped().0.ringback_epoch == s.ringback_epoch,
        s.stepped().0.incoming_ring_epoch == s.incoming_ring_epoch,
{
}

/// Each stop counts: the count goes up by one, and from the largest to zero.
pub proof fn stops_are_counted(e: u64)
    ensures
        e < 0xffff_ffff_ffff_ffff ==> next_epoch(e) == e + 1,
        e == 0xffff_ffff_ffff_ffff ==> next_epoch(e) == 0,
{
}

/// A source that is missing has nothing to give; one that is there gives what it
/// has.
pub proof fn missing_sources_give_nothing(source: SampleSource)
    ensures
        upcoming_of(None).len() == 0,
        seen_of(None) == 0,
        upcoming_of(Some(source)) == upcoming(source),
        seen_of(Some(source)) == seen(source),
{
}

/// Audio is sent as the code whose sample is nearest: no other code comes closer,
/// and where two are as close, the lower one is sent.
pub proof fn nearest_codes_are_sent(
    table: Seq<i16>,
    samples: Seq<i16>,
    payload: Seq<u8>,
    i: int,
    code: int,
)
    requires
        encodes(table, samples, payload),
        0 <= i < samples.len(),
        0 <= code < table.len(),
    ensures
        payload.len() == samples.len(),
        payload[i] < table.len(),
        ({
            let d = table[payload[i] as int] - samples[i];
            let e = table[code] - samples[i];
            &&& -e <= d <= e || e <= d <= -e
            &&& (d == e || d == -e) ==> payload[i] <= code
        }),
{
    assert(is_nearest(table, samples[i], payload[i] as int));
    let k = payload[i] as int;
    let near = distance(table[k] as int, samples[i] as int);
    let far = distance(table[code] as int, samples[i] as int);
    assert(near <= far);
    if code < k {
        assert(near < far);
    }
}

// ---------------------------------------------------------------------------
// Errors

/// Errors say what went wrong, with the version that a packet has or what the
/// audio server says.
pub proof fn errors_say_what_went_wrong(e: String, v: u8)
    ensures
        MediaError::Io(e).message() == e@,
        MediaError::RtpTooShort.message() == "rtp packet too short"@,
        MediaError::RtpBadVersion(v).message() == "unsupported rtp version "@ + decimal(v as nat),
        MediaError::PipeWire(e).message() == "pipewire error: "@ + e@,
{
}

} // verus!
