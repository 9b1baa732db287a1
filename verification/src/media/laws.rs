//! What holds of the audio of a call, said in terms of bytes, samples and
//! numbers alone.

use vstd::prelude::*;

use crate::media::codec::{alaw_value, ulaw_value, Codec};
use crate::media::dtmf::{
    event_after, event_code, event_digit, event_payload, DtmfEventState, DtmfSend,
};
use crate::media::playback::{excess, fills, samples_of, unless_muted, Filled, Playback};
use crate::media::receiver::{decoded, event_step, Receiver};
use crate::media::record::{added, clamped, pcm_bytes, recorded, RecordChannel, Recorder};
use crate::media::reorder::{ahead, following, is_late, REORDER_WINDOW};
use crate::media::ring::{seen, upcoming};
use crate::media::rtp::{header_of, is_packet, payload_of, RtpHeader};
use crate::media::sender::{
    due_event, encodes, fresh_event, outgoing, sent_packet, took_counts, Sender,
};
use crate::net::IpAddress;

verus! {

// ---------------------------------------------------------------------------
// Digits as events

/// The event of a decimal digit is its value, star is 10, pound is 11, and the
/// letters from A on are 12 to 15, in either case; nothing else has an event,
/// and every event up to 15 is read as its digit.
pub proof fn digits_are_their_numbers(n: u8, other: char)
    ensures
        n <= 9 ==> event_code((48 + n) as char) == Some(n),
        n <= 9 ==> event_digit(n) == Some((48 + n) as char),
        event_code('*') == Some(10u8),
        event_code('#') == Some(11u8),
        event_digit(10) == Some('*'),
        event_digit(11) == Some('#'),
        12 <= n <= 15 ==> event_code((53 + n) as char) == Some(n),
        12 <= n <= 15 ==> event_code((85 + n) as char) == Some(n),
        12 <= n <= 15 ==> event_digit(n) == Some((53 + n) as char),
        16 <= n ==> event_digit(n) is None,
        event_code(other) is Some ==> other == '*' || other == '#' || 48 <= other as u32 <= 57 || 65
            <= other as u32 <= 68 || 97 <= other as u32 <= 100,
{
}

/// The four bytes of an event: its number; whether it has ended, in the highest
/// bit, over six bits of attenuation; and how long it has lasted, the more
/// significant byte first.
pub proof fn event_bytes_stand_in_place(code: u8, end: bool, volume: u8, duration: u16)
    ensures
        ({
            let p = event_payload(code, end, volume, duration);
            &&& p.len() == 4
            &&& p[0] == code
            &&& p[1] >= 128 <==> end
            &&& p[1] % 128 == volume % 64
            &&& 256 * p[2] + p[3] == duration
        }),
{
}

/// The packets of a digit: packet `k` has the marker bit if it is the first,
/// the timestamp at which the digit began, and its own sequence number; it
/// carries the digit's event at ten decibels below full scale; it has lasted
/// for 20 ms more than the one before, up to the whole length; and it says that
/// the digit has ended exactly if it is one of the last three.
pub proof fn digit_packets_say_what_they_should(
    first: DtmfEventState,
    k: int,
    payload_type: u8,
    ssrc: u32,
    sequence_number: u16,
)
    requires
        first.wf(),
        first.elapsed_ticks == 0,
        first.end_packets_sent == 0,
        !first.marker_sent,
        0 <= k < (first.total_ticks + 159) / 160 + 2,
    ensures
        ({
            let d = event_after(first, k).next_bytes(payload_type, ssrc, sequence_number);
            let ticks = if 160 * (k + 1) < first.total_ticks {
                160 * (k + 1)
            } else {
                first.total_ticks as int
            };
            &&& d.len() == 16
            &&& d[0] == 0x80
            &&& d[1] == payload_type % 128 + if k == 0 {
                128int
            } else {
                0
            }
            &&& 256 * d[2] + d[3] == sequence_number
            &&& 0x100_0000 * d[4] + 0x1_0000 * d[5] + 0x100 * d[6] + d[7] == first.start_timestamp
            &&& 0x100_0000 * d[8] + 0x1_0000 * d[9] + 0x100 * d[10] + d[11] == ssrc
            &&& d[12] == first.event_code
            &&& d[13] % 128 == 10
            &&& d[13] >= 128 <==> k >= (first.total_ticks + 159) / 160 - 1
            &&& 256 * d[14] + d[15] == if ticks < 65535 {
                ticks
            } else {
                65535
            }
        }),
{
    crate::media::dtmf::event_train(first, k);
    elapsed_after(first, k);
    let now = event_after(first, k);
    let elapsed = now.next_elapsed();
    let duration: u16 = if elapsed < 65535 {
        elapsed as u16
    } else {
        65535
    };
    let header = RtpHeader {
        marker: !now.marker_sent,
        payload_type,
        sequence_number,
        timestamp: now.start_timestamp,
        ssrc,
    };
    let payload = event_payload(now.event_code, elapsed == now.total_ticks, 10, duration);
    let d = now.next_bytes(payload_type, ssrc, sequence_number);
    assert(d == header.bytes() + payload);
    event_bytes_stand_in_place(now.event_code, elapsed == now.total_ticks, 10, duration);
    header_fields(header);
    assert forall|i: int| 0 <= i < 12 implies #[trigger] header.bytes()[i] == d[i] by {}
    assert forall|i: int| 0 <= i < 4 implies #[trigger] payload[i] == d[12 + i] by {}
}

proof fn header_fields(header: RtpHeader)
    ensures
        ({
            let d = header.bytes();
            &&& d.len() == 12
            &&& d[0] == 128
            &&& d[1] == header.payload_type % 128 + if header.marker {
                128int
            } else {
                0
            }
            &&& 256 * d[2] + d[3] == header.sequence_number
            &&& 0x100_0000 * d[4] + 0x1_0000 * d[5] + 0x100 * d[6] + d[7] == header.timestamp
            &&& 0x100_0000 * d[8] + 0x1_0000 * d[9] + 0x100 * d[10] + d[11] == header.ssrc
        }),
{
}

proof fn elapsed_after(first: DtmfEventState, k: int)
    requires
        first.wf(),
        first.elapsed_ticks == 0,
        first.end_packets_sent == 0,
        !first.marker_sent,
        0 <= k < (first.total_ticks + 159) / 160 + 2,
    ensures
        event_after(first, k).elapsed_ticks == if 160 * k < first.total_ticks {
            160 * k
        } else {
            first.total_ticks as int
        },
    decreases k,
{
    if k > 0 {
        elapsed_after(first, k - 1);
        crate::media::dtmf::event_train(first, k - 1);
    }
}

// ---------------------------------------------------------------------------
// Packets

/// Where the fields of a header stand in a packet: the version in the top two
/// bits, nothing else in the first byte; the marker in the top bit of the second
/// over the payload type; then the sequence number, the timestamp and the
/// source, the more significant bytes first; and the payload behind twelve
/// bytes.
pub proof fn packet_fields_stand_in_place(header: RtpHeader, payload: Seq<u8>, i: int)
    requires
        header.payload_type < 128,
        0 <= i < payload.len(),
    ensures
        ({
            let d = header.bytes() + payload;
            &&& d.len() == 12 + payload.len()
            &&& d[0] == 2 * 64
            &&& d[1] >= 128 <==> header.marker
            &&& d[1] % 128 == header.payload_type
            &&& 256 * d[2] + d[3] == header.sequence_number
            &&& 0x100_0000 * d[4] + 0x1_0000 * d[5] + 0x100 * d[6] + d[7] == header.timestamp
            &&& 0x100_0000 * d[8] + 0x1_0000 * d[9] + 0x100 * d[10] + d[11] == header.ssrc
            &&& d[12 + i] == payload[i]
        }),
{
    let d = header.bytes() + payload;
    header_fields(header);
    assert forall|k: int| 0 <= k < 12 implies #[trigger] header.bytes()[k] == d[k] by {}
}

/// What is read of a packet: the fields from where they stand, and as payload
/// what follows the header, behind four bytes for each further source that the
/// low four bits of the first byte count. What has another version, or is too
/// short for its header, is no packet.
pub proof fn packets_are_read_from_their_fields(d: Seq<u8>)
    ensures
        is_packet(d) <==> d.len() >= 12 && d.len() >= 12 + 4 * (d[0] % 16) && 128 <= d[0] < 192,
        is_packet(d) ==> ({
            let h = header_of(d);
            &&& h.marker <==> d[1] >= 128
            &&& h.payload_type == d[1] % 128
            &&& h.sequence_number == 256 * d[2] + d[3]
            &&& h.timestamp == 0x100_0000 * d[4] + 0x1_0000 * d[5] + 0x100 * d[6] + d[7]
            &&& h.ssrc == 0x100_0000 * d[8] + 0x1_0000 * d[9] + 0x100 * d[10] + d[11]
            &&& d.take(12 + 4 * (d[0] % 16)) + payload_of(d) == d
        }),
{
    if is_packet(d) {
        assert(d.take(12 + 4 * (d[0] % 16)) + payload_of(d) =~= d);
    }
}

// ---------------------------------------------------------------------------
// Recordings

proof fn pcm_is_two_bytes_each(samples: Seq<i16>)
    ensures
        pcm_bytes(samples).len() == 2 * samples.len(),
    decreases samples.len(),
{
    if samples.len() > 0 {
        pcm_is_two_bytes_each(samples.drop_last());
    }
}

/// A sample is written as two bytes, the less significant first; read back as a
/// number of sixteen bits with a sign, they are the sample.
pub proof fn samples_are_written_low_byte_first(samples: Seq<i16>, i: int)
    requires
        0 <= i < samples.len(),
    ensures
        ({
            let b = pcm_bytes(samples);
            let n = b[2 * i] + 256 * b[2 * i + 1];
            &&& b.len() == 2 * samples.len()
            &&& samples[i] == if n >= 32768 {
                n - 65536
            } else {
                n
            }
        }),
    decreases samples.len(),
{
    let head = samples.drop_last();
    pcm_is_two_bytes_each(samples);
    pcm_is_two_bytes_each(head);
    if i < head.len() {
        samples_are_written_low_byte_first(head, i);
    }
}

/// Adding two samples gives their sum where a sample can hold it, and the
/// loudest sample of the sum's sign where it cannot.
pub proof fn loud_sums_are_cut_off(a: i16, b: i16)
    ensures
        -32768 <= a + b <= 32767 ==> clamped(a + b) == a + b,
        a + b > 32767 ==> clamped(a + b) == 32767,
        a + b < -32768 ==> clamped(a + b) == -32768,
{
}

/// A chunk that is added to a recording changes nothing before it and nothing
/// behind it; where the recording has ended there was silence before.
pub proof fn chunks_are_added_in_place(samples: Seq<i16>, start: int, chunk: Seq<i16>, i: int)
    requires
        0 <= start <= samples.len(),
        0 <= i < added(samples, start, chunk).len(),
    ensures
        added(samples, start, chunk).len() >= samples.len(),
        added(samples, start, chunk).len() >= start + chunk.len(),
        added(samples, start, chunk).len() == samples.len() || added(samples, start, chunk).len()
            == start + chunk.len(),
        i < start || i >= start + chunk.len() ==> added(samples, start, chunk)[i] == samples[i],
        start <= i < start + chunk.len() && i >= samples.len() ==> added(samples, start, chunk)[i]
            == chunk[i - start],
        start <= i < start + chunk.len() && i < samples.len() && -32768 <= samples[i] + chunk[i
            - start] <= 32767 ==> added(samples, start, chunk)[i] == samples[i] + chunk[i - start],
        start <= i < start + chunk.len() && i < samples.len() && samples[i] + chunk[i - start]
            > 32767 ==> added(samples, start, chunk)[i] == 32767,
        start <= i < start + chunk.len() && i < samples.len() && samples[i] + chunk[i - start]
            < -32768 ==> added(samples, start, chunk)[i] == -32768,
{
}

/// Recording one side moves that side on and leaves the other where it was; a
/// recorder that is off stays off, and one that is on stays on.
pub proof fn each_side_keeps_its_place(
    before: Recorder,
    after: Recorder,
    channel: RecordChannel,
    chunk: Seq<i16>,
)
    requires
        recorded(before, after, channel, chunk),
    ensures
        before.mixer is None <==> after.mixer is None,
        before.mixer matches Some(b) ==> ({
            let a = after.mixer->0;
            &&& channel is Mic ==> a.mic_pos == b.mic_pos + chunk.len() && a.remote_pos
                == b.remote_pos
            &&& channel is Remote ==> a.remote_pos == b.remote_pos + chunk.len() && a.mic_pos
                == b.mic_pos
        }),
{
}

// ---------------------------------------------------------------------------
// Sending

/// What is sent of a captured sample: with nothing else to hear it is the
/// sample; a joined call is added to it; another application is added only
/// while that is switched on; and as much is sent as was captured.
pub proof fn callers_hear_the_sum(
    mic: Seq<i16>,
    foreign: Seq<i16>,
    injected: Seq<i16>,
    inject: bool,
    i: int,
)
    requires
        0 <= i < mic.len(),
    ensures
        outgoing(mic, foreign, injected, inject).len() == mic.len(),
        i >= foreign.len() && (!inject || i >= injected.len()) ==> outgoing(
            mic,
            foreign,
            injected,
            inject,
        )[i] == mic[i],
        i < foreign.len() && !inject && -32768 <= mic[i] + foreign[i] <= 32767 ==> outgoing(
            mic,
            foreign,
            injected,
            inject,
        )[i] == mic[i] + foreign[i],
        i < foreign.len() && !inject && mic[i] + foreign[i] > 32767 ==> outgoing(
            mic,
            foreign,
            injected,
            inject,
        )[i] == 32767,
        i < foreign.len() && !inject && mic[i] + foreign[i] < -32768 ==> outgoing(
            mic,
            foreign,
            injected,
            inject,
        )[i] == -32768,
        i >= foreign.len() && i < injected.len() && inject && -32768 <= mic[i] + injected[i]
            <= 32767 ==> outgoing(mic, foreign, injected, inject)[i] == mic[i] + injected[i],
        i < foreign.len() && i < injected.len() && inject && -32768 <= mic[i] + foreign[i] <= 32767
            && -32768 <= mic[i] + foreign[i] + injected[i] <= 32767 ==> outgoing(
            mic,
            foreign,
            injected,
            inject,
        )[i] == mic[i] + foreign[i] + injected[i],
        outgoing(mic, foreign, injected, false) == outgoing(mic, foreign, Seq::empty(), false),
{
}

/// An audio packet: twelve bytes of header without the marker, with the
/// sender's type, numbers and source; one byte for each sample behind it; and
/// the sender goes on by one packet and as many ticks as there were samples.
pub proof fn audio_packets_are_numbered(
    before: Sender,
    after: Sender,
    packet: Seq<u8>,
    out: Seq<i16>,
)
    requires
        sent_packet(before, after, packet, out),
    ensures
        packet.len() == 12 + out.len(),
        packet[0] == 128,
        packet[1] == before.payload_type % 128,
        256 * packet[2] + packet[3] == before.sequence_number,
        0x100_0000 * packet[4] + 0x1_0000 * packet[5] + 0x100 * packet[6] + packet[7]
            == before.timestamp,
        0x100_0000 * packet[8] + 0x1_0000 * packet[9] + 0x100 * packet[10] + packet[11]
            == before.ssrc,
        after.sequence_number == before.sequence_number + 1 || (before.sequence_number == 65535
            && after.sequence_number == 0),
        after.timestamp == before.timestamp + out.len() || after.timestamp == before.timestamp
            + out.len() - 0x1_0000_0000 || out.len() > 0xffff_ffff,
        after.ssrc == before.ssrc,
        after.payload_type == before.payload_type,
        after.telephone_event_pt == before.telephone_event_pt,
        after.codec == before.codec,
        after.queue@ == before.queue@,
        after.active == before.active,
{
    let header = before.audio_header();
    let payload = choose|payload: Seq<u8>|
        packet == #[trigger] (header.bytes() + payload) && encodes(before.table@, out, payload);
    header_fields(header);
    assert forall|i: int| 0 <= i < 12 implies #[trigger] header.bytes()[i] == packet[i] by {}
}

/// A packet takes 20 ms from the microphone, and no more than that from anyone
/// else.
pub proof fn packets_hold_twenty_ms(
    capture: Seq<i16>,
    bridge: Seq<i16>,
    secondary: Seq<i16>,
    bridge_seen: nat,
    secondary_seen: nat,
    got: int,
    from_bridge: int,
    from_secondary: int,
)
    requires
        took_counts(
            capture,
            bridge,
            secondary,
            bridge_seen,
            secondary_seen,
            got,
            from_bridge,
            from_secondary,
        ),
    ensures
        got == 160,
        got <= capture.len(),
        0 <= from_bridge <= 160 && from_bridge <= bridge.len(),
        0 <= from_secondary <= 160 && from_secondary <= secondary.len(),
        from_bridge == 160 || from_bridge >= bridge_seen,
        from_secondary == 160 || from_secondary >= secondary_seen,
{
}

/// A digit that is sent lasts for eight ticks a millisecond, but for one packet
/// at least, and begins at the timestamp that it is given.
pub proof fn digits_last_as_asked(req: DtmfSend, timestamp: u32)
    requires
        req.fits(),
    ensures
        ({
            let e = fresh_event(req, timestamp);
            &&& e.start_timestamp == timestamp
            &&& e.elapsed_ticks == 0
            &&& e.total_ticks >= 160
            &&& req.duration_ms >= 20 ==> e.total_ticks == 8 * req.duration_ms
            &&& !e.marker_sent && e.end_packets_sent == 0
            &&& event_code(req.digit) == Some(e.event_code) || event_code(req.digit) is None
        }),
{
}

/// Digits are sent one after the other in the order in which they were asked
/// for, and none where the other side takes no events.
pub proof fn digits_wait_their_turn(sender: Sender)
    ensures
        sender.telephone_event_pt is None ==> due_event(sender) is None,
        sender.telephone_event_pt is Some ==> match sender.active {
            Some(e) => due_event(sender) == Some(e),
            None => if sender.queue@.len() == 0 {
                due_event(sender) is None
            } else {
                due_event(sender) matches Some(e) && e.elapsed_ticks == 0 && e.start_timestamp
                    == sender.timestamp && (event_code(sender.queue@[0].digit) matches Some(c)
                    ==> e.event_code == c)
            },
        },
{
}

// ---------------------------------------------------------------------------
// Receiving

/// A datagram is listened to only if it comes from the other side, and is a
/// packet. It is part of a digit if it has the type that was agreed on for
/// digits, and audio if it has the type of the codec and not that one.
pub proof fn only_the_peer_is_heard(r: Receiver, from: IpAddress, d: Seq<u8>)
    ensures
        r.is_event(from, d) <==> from == r.remote_ip && d.len() >= 12 && d.len() >= 12 + 4 * (d[0]
            % 16) && 128 <= d[0] < 192 && (r.telephone_event_pt matches Some(pt) && pt == d[1]
            % 128),
        r.is_audio(from, d) <==> from == r.remote_ip && d.len() >= 12 && d.len() >= 12 + 4 * (d[0]
            % 16) && 128 <= d[0] < 192 && r.payload_type == d[1] % 128 && !(
        r.telephone_event_pt matches Some(pt) && pt == d[1] % 128),
{
}

/// A digit is heard when a packet says that it has ended, and not again for
/// another packet of the same event; one that goes on is not heard yet.
pub proof fn digits_are_heard_at_their_end(
    last: Option<(u8, u32)>,
    timestamp: u32,
    code: u8,
    end: bool,
    volume: u8,
    duration: u16,
)
    ensures
        ({
            let p = event_payload(code, end, volume, duration);
            let (seen, digit) = event_step(last, timestamp, p);
            &&& !end ==> digit is None && seen == last
            &&& end && last == Some((code, timestamp)) ==> digit is None && seen == last
            &&& end && last != Some((code, timestamp)) ==> seen == Some((code, timestamp))
            &&& end && last != Some((code, timestamp)) && code <= 9 ==> digit == Some(
                (48 + code) as char,
            )
            &&& end && last != Some((code, timestamp)) && code == 10 ==> digit == Some('*')
            &&& end && last != Some((code, timestamp)) && code == 11 ==> digit == Some('#')
            &&& end && last != Some((code, timestamp)) && 12 <= code <= 15 ==> digit == Some(
                (53 + code) as char,
            )
            &&& code > 15 ==> digit is None
            &&& event_step(seen, timestamp, p).1 is None
        }),
{
}

/// Any packet of an event of two bytes or more can end it: the first byte is the
/// event, and the top bit of the second says that it has ended. A shorter one says
/// nothing.
pub proof fn events_end_by_their_top_bit(last: Option<(u8, u32)>, timestamp: u32, p: Seq<u8>)
    ensures
        p.len() < 2 ==> event_step(last, timestamp, p) == (last, None::<char>),
        p.len() >= 2 && p[1] < 128 ==> event_step(last, timestamp, p) == (last, None::<char>),
        p.len() >= 2 && p[1] >= 128 && last != Some((p[0], timestamp)) ==> event_step(
            last,
            timestamp,
            p,
        ) == (Some((p[0], timestamp)), event_digit(p[0])),
        p.len() >= 2 && last == Some((p[0], timestamp)) ==> event_step(last, timestamp, p) == (
            last,
            None::<char>,
        ),
{
}

/// Every byte of audio becomes one sample, in the same order: the one that the
/// codec of the call has for it.
pub proof fn bytes_become_samples(payload: Seq<u8>, i: int)
    requires
        0 <= i < payload.len(),
    ensures
        decoded(Codec::Alaw, payload).len() == payload.len(),
        decoded(Codec::Ulaw, payload).len() == payload.len(),
        decoded(Codec::Alaw, payload)[i] == alaw_value(payload[i]),
        decoded(Codec::Ulaw, payload)[i] == ulaw_value(payload[i]),
{
}

/// Numbers of packets wrap around: the one after 65535 is 0. A packet is late if
/// it is behind the one expected, or more than half of all numbers ahead; no
/// more than five packets wait.
pub proof fn packet_numbers_wrap_around(seq: u16, expected: u16)
    ensures
        following(seq) == if seq == 65535 {
            0int
        } else {
            seq + 1
        },
        ahead(seq, expected) == if seq >= expected {
            seq - expected
        } else {
            seq - expected + 65536
        },
        seq >= expected ==> (is_late(seq, expected) <==> seq - expected >= 32768),
        seq < expected ==> (is_late(seq, expected) <==> expected - seq <= 32768),
        REORDER_WINDOW == 5,
{
}

// ---------------------------------------------------------------------------
// Playing

/// What a buffer is filled with: nothing is played before 1600 samples were
/// there, and everything from then on; of more than 20000 samples that wait, all
/// but the last 16000 are thrown away, and of fewer none are; what was there is
/// then played in order, as far as the buffer goes.
pub proof fn buffers_are_filled_in_order(
    before: Playback,
    after: Playback,
    r: Filled,
    ready: int,
    backlog: int,
    i: int,
)
    requires
        fills(before, after, r, ready, backlog),
        0 <= i < r.samples@.len(),
    ensures
        before.prebuffered || ready >= 1600 <==> after.prebuffered,
        seen(before.source) <= ready <= backlog <= upcoming(before.source).len(),
        backlog > 20000 ==> backlog - r.discarded == 16000,
        backlog <= 20000 ==> r.discarded == 0,
        !after.prebuffered ==> r.samples@[i] == 0 && r.played == 0,
        after.prebuffered && r.discarded + i < backlog ==> r.samples@[i] == upcoming(
            before.source,
        )[r.discarded + i],
        after.prebuffered ==> r.played == r.samples@.len() || r.played >= backlog - r.discarded,
        excess(backlog) == r.discarded,
{
}

/// What is captured: each two bytes are one sample, the less significant byte
/// first, and a byte that is left over is none. A muted microphone gives as much
/// silence.
pub proof fn captured_bytes_become_samples(bytes: Seq<u8>, i: int, muted: bool)
    requires
        0 <= i < bytes.len() / 2,
    ensures
        ({
            let n = bytes[2 * i] + 256 * bytes[2 * i + 1];
            let s = samples_of(bytes);
            &&& s.len() == bytes.len() / 2
            &&& s[i] == if n < 32768 {
                n
            } else {
                n - 65536
            }
            &&& unless_muted(s, muted).len() == s.len()
            &&& muted ==> unless_muted(s, muted)[i] == 0
            &&& !muted ==> unless_muted(s, muted)[i] == s[i]
        }),
{
}

} // verus!
