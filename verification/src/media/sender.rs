//! Sending: captured audio and digits become RTP packets.

use vstd::prelude::*;

use crate::media::codec::{distance, error_bound, is_nearest, Codec};
use crate::media::dtmf::{
    can_send_event, event_code, DtmfEventState, DtmfSend, SAMPLES_PER_PACKET,
};
use crate::media::record::{clamped, mix_samples, recorded, RecordChannel, Recorder};
use crate::media::ring::{
    pop_from, same_source, seen, seen_of, source_ring, upcoming, upcoming_of, SampleSource,
};
use crate::media::rtp::{payload_of, RtpHeader};
use crate::random::random_u64;

verus! {

/// `base` with `other` added, sample by sample, as far as `other` goes.
pub open spec fn mixed(base: Seq<i16>, other: Seq<i16>) -> Seq<i16> {
    Seq::new(
        base.len(),
        |i: int|
            if i < other.len() {
                clamped(base[i] + other[i])
            } else {
                base[i]
            },
    )
}

/// Adds `other` to `base`, sample by sample, as far as `other` goes.
pub fn mix_into(base: &mut Vec<i16>, other: &Vec<i16>)
    ensures
        final(base)@ == mixed(old(base)@, other@),
{
    let n: usize = if other.len() < base.len() {
        other.len()
    } else {
        base.len()
    };
    let mut i: usize = 0;
    while i < n
        invariant
            i <= n,
            n <= other@.len(),
            n <= base@.len(),
            base@.len() == old(base)@.len(),
            forall|j: int|
                0 <= j < base@.len() ==> (#[trigger] base@[j]) == (if j < i {
                    clamped(old(base)@[j] + other@[j])
                } else {
                    old(base)@[j]
                }),
        decreases n - i,
    {
        let s: i16 = mix_samples(base[i], other[i]);
        base.set(i, s);
        i = i + 1;
    }
    assert(base@ =~= mixed(old(base)@, other@));
}

/// Whether `payload` holds the nearest code for each of the samples.
pub open spec fn encodes(table: Seq<i16>, samples: Seq<i16>, payload: Seq<u8>) -> bool {
    &&& payload.len() == samples.len()
    &&& forall|i: int|
        0 <= i < samples.len() ==> is_nearest(
            table,
            samples[i],
            #[trigger] payload[i] as int,
        )
}

/// What is sent of a chunk of captured audio: the audio of a joined call is
/// mixed in, and that of another application while that is switched on.
pub open spec fn outgoing(
    mic: Seq<i16>,
    foreign: Seq<i16>,
    injected: Seq<i16>,
    inject: bool,
) -> Seq<i16> {
    if inject {
        mixed(mixed(mic, foreign), injected)
    } else {
        mixed(mic, foreign)
    }
}

/// The sending half of a call's audio.
pub struct Sender {
    pub codec: Codec,
    pub table: [i16; 256],
    pub payload_type: u8,
    pub telephone_event_pt: Option<u8>,
    pub sequence_number: u16,
    pub timestamp: u32,
    pub ssrc: u32,
    /// Digits that wait: they are sent one after the other, so that a burst
    /// of key presses does not mix the packets of several events.
    pub queue: Vec<DtmfSend>,
    pub active: Option<DtmfEventState>,
}

/// What an event packet is taken from: the event being sent, or the next
/// digit in line.
pub open spec fn due_event(sender: Sender) -> Option<DtmfEventState> {
    if sender.telephone_event_pt is None {
        None
    } else if sender.active is Some {
        sender.active
    } else if sender.queue@.len() > 0 {
        Some(fresh_event(sender.queue@[0], sender.timestamp))
    } else {
        None
    }
}

/// The event for a digit, none of it sent.
pub open spec fn fresh_event(req: DtmfSend, start_timestamp: u32) -> DtmfEventState {
    DtmfEventState {
        event_code: match event_code(req.digit) {
            Some(c) => c,
            None => 0,
        },
        start_timestamp,
        elapsed_ticks: 0,
        total_ticks: if req.duration_ms * 8 < 160 {
            160
        } else {
            (req.duration_ms * 8) as u32
        },
        marker_sent: false,
        end_packets_sent: 0,
    }
}

impl Sender {
    /// The table is the codec's, and whatever waits to be sent can be.
    pub open spec fn wf(self) -> bool {
        &&& self.codec.is_table(self.table@)
        &&& self.codec == (if self.payload_type == 8 {
            Codec::Alaw
        } else {
            Codec::Ulaw
        })
        &&& forall|i: int| 0 <= i < self.queue@.len() ==> (#[trigger] self.queue@[i]).fits()
        &&& self.active matches Some(e) ==> e.wf()
    }

    /// Whether nothing differs from `other` but the sequence number and the
    /// timestamp.
    pub open spec fn same_but_for_numbers(self, other: Sender) -> bool {
        &&& self.codec == other.codec
        &&& self.table == other.table
        &&& self.payload_type == other.payload_type
        &&& self.telephone_event_pt == other.telephone_event_pt
        &&& self.ssrc == other.ssrc
        &&& self.queue@ == other.queue@
        &&& self.active == other.active
    }

    /// The header of the next audio packet.
    pub open spec fn audio_header(self) -> RtpHeader {
        RtpHeader {
            marker: false,
            payload_type: self.payload_type,
            sequence_number: self.sequence_number,
            timestamp: self.timestamp,
            ssrc: self.ssrc,
        }
    }

    /// A sender that begins at the given numbers.
    pub fn new(
        payload_type: u8,
        telephone_event_pt: Option<u8>,
        sequence_number: u16,
        timestamp: u32,
        ssrc: u32,
    ) -> (r: Self)
        ensures
            r.wf(),
            r.payload_type == payload_type,
            r.telephone_event_pt == telephone_event_pt,
            r.sequence_number == sequence_number,
            r.timestamp == timestamp,
            r.ssrc == ssrc,
            r.queue@.len() == 0,
            r.active is None,
    {
        let codec = Codec::from_payload_type(payload_type);
        let table = codec.build_decode_table();
        Sender {
            codec,
            table,
            payload_type,
            telephone_event_pt,
            sequence_number,
            timestamp,
            ssrc,
            queue: Vec::new(),
            active: None,
        }
    }

    /// A sender that begins at random numbers.
    pub fn start(payload_type: u8, telephone_event_pt: Option<u8>) -> (r: Self)
        ensures
            r.wf(),
            r.payload_type == payload_type,
            r.telephone_event_pt == telephone_event_pt,
            r.queue@.len() == 0,
            r.active is None,
    {
        let a: u64 = random_u64();
        let b: u64 = random_u64();
        let c: u64 = random_u64();
        Sender::new(
            payload_type,
            telephone_event_pt,
            (a % 0x1_0000) as u16,
            (b % 0x1_0000_0000) as u32,
            (c % 0x1_0000_0000) as u32,
        )
    }

    /// Puts a digit in line. A call that did not agree on events drops it.
    pub fn queue_digit(&mut self, req: DtmfSend)
        requires
            old(self).wf(),
            req.fits(),
        ensures
            final(self).wf(),
            final(self).queue@ == (if old(self).telephone_event_pt is Some {
                old(self).queue@.push(req)
            } else {
                old(self).queue@
            }),
            final(self).codec == old(self).codec,
            final(self).payload_type == old(self).payload_type,
            final(self).telephone_event_pt == old(self).telephone_event_pt,
            final(self).sequence_number == old(self).sequence_number,
            final(self).timestamp == old(self).timestamp,
            final(self).ssrc == old(self).ssrc,
            final(self).active == old(self).active,
    {
        if self.telephone_event_pt.is_some() {
            self.queue.push(req);
        }
    }

    /// Puts a digit in line, if it can be sent as an event. Where it cannot,
    /// the caller sends it some other way.
    pub fn send_dtmf(&mut self, digit: char, duration_ms: u32) -> (sent: bool)
        requires
            old(self).wf(),
            (DtmfSend { digit, duration_ms }).fits(),
        ensures
            final(self).wf(),
            sent == (old(self).telephone_event_pt is Some && event_code(digit) is Some),
            final(self).queue@ == (if sent {
                old(self).queue@.push(DtmfSend { digit, duration_ms })
            } else {
                old(self).queue@
            }),
            final(self).codec == old(self).codec,
            final(self).payload_type == old(self).payload_type,
            final(self).telephone_event_pt == old(self).telephone_event_pt,
            final(self).sequence_number == old(self).sequence_number,
            final(self).timestamp == old(self).timestamp,
            final(self).ssrc == old(self).ssrc,
            final(self).active == old(self).active,
    {
        if can_send_event(self.telephone_event_pt, digit) {
            self.queue_digit(DtmfSend { digit, duration_ms });
            true
        } else {
            false
        }
    }

    fn encode_all(&self, samples: &Vec<i16>) -> (payload: Vec<u8>)
        ensures
            encodes(self.table@, samples@, payload@),
    {
        let mut payload: Vec<u8> = Vec::new();
        let mut i: usize = 0;
        while i < samples.len()
            invariant
                i <= samples@.len(),
                payload@.len() == i,
                forall|j: int|
                    0 <= j < i ==> is_nearest(
                        self.table@,
                        samples@[j],
                        #[trigger] payload@[j] as int,
                    ),
            decreases samples.len() - i,
        {
            payload.push(self.codec.encode(&self.table, samples[i]));
            i = i + 1;
        }
        payload
    }

    /// The packet for a chunk of captured audio, given what came from a joined
    /// call and from another application.
    pub fn audio_packet(
        &mut self,
        mic: Vec<i16>,
        foreign: &Vec<i16>,
        injected: &Vec<i16>,
        inject: bool,
        recorder: &mut Recorder,
    ) -> (packet: Vec<u8>)
        requires
            old(self).wf(),
            old(recorder).wf(),
            old(recorder).has_room(RecordChannel::Mic, mic@),
            mic@.len() <= SAMPLES_PER_PACKET,
        ensures
            final(self).wf(),
            final(recorder).wf(),
            recorded(
                *old(recorder),
                *final(recorder),
                RecordChannel::Mic,
                outgoing(mic@, foreign@, injected@, inject),
            ),
            exists|payload: Seq<u8>|
                packet@ == #[trigger] (old(self).audio_header().bytes() + payload) && encodes(
                    old(self).table@,
                    outgoing(mic@, foreign@, injected@, inject),
                    payload,
                ),
            final(self).same_but_for_numbers(*old(self)),
            final(self).sequence_number == (old(self).sequence_number + 1) % 0x1_0000,
            final(self).timestamp == (old(self).timestamp + mic@.len()) % 0x1_0000_0000,
    {
        let got: usize = mic.len();
        let mut scratch = mic;
        mix_into(&mut scratch, foreign);
        if inject {
            mix_into(&mut scratch, injected);
        }
        recorder.record(RecordChannel::Mic, scratch.as_slice());
        let payload = self.encode_all(&scratch);
        let header = RtpHeader {
            marker: false,
            payload_type: self.payload_type,
            sequence_number: self.sequence_number,
            timestamp: self.timestamp,
            ssrc: self.ssrc,
        };
        let packet = header.build_packet(payload.as_slice());
        self.sequence_number = self.sequence_number.wrapping_add(1);
        self.timestamp = self.timestamp.wrapping_add(got as u32);
        assert(packet@ == old(self).audio_header().bytes() + payload@);
        packet
    }

    /// The next audio packet, if enough audio has been captured for one: a
    /// packet is always full.
    ///
    /// What another application plays is always taken out of its ring, so that
    /// it does not go stale while it is switched off.
    pub fn next_audio_packet(
        &mut self,
        capture: &mut SampleSource,
        bridge: &mut Option<SampleSource>,
        secondary: &mut Option<SampleSource>,
        inject: bool,
        recorder: &mut Recorder,
    ) -> (r: Option<Vec<u8>>)
        requires
            old(self).wf(),
            old(recorder).wf(),
            old(recorder).has_room_for(RecordChannel::Mic, SAMPLES_PER_PACKET as nat),
        ensures
            final(self).wf(),
            final(recorder).wf(),
            seen(*old(capture)) >= SAMPLES_PER_PACKET ==> r is Some,
            upcoming(*old(capture)).len() < SAMPLES_PER_PACKET ==> r is None,
            source_ring(*final(capture)) == source_ring(*old(capture)),
            same_source(*old(bridge), *final(bridge)),
            same_source(*old(secondary), *final(secondary)),
            match r {
                None => {
                    &&& final(self).same_but_for_numbers(*old(self))
                    &&& final(self).sequence_number == old(self).sequence_number
                    &&& final(self).timestamp == old(self).timestamp
                    &&& seen(*final(capture)) < SAMPLES_PER_PACKET
                    &&& upcoming(*final(capture)) == upcoming(*old(capture))
                    &&& *final(bridge) == *old(bridge)
                    &&& *final(secondary) == *old(secondary)
                    &&& *final(recorder) == *old(recorder)
                },
                Some(packet) => {
                    &&& exists|out: Seq<i16>|
                        #[trigger] took_audio(
                            upcoming(*old(capture)),
                            upcoming(*final(capture)),
                            upcoming_of(*old(bridge)),
                            upcoming_of(*final(bridge)),
                            upcoming_of(*old(secondary)),
                            upcoming_of(*final(secondary)),
                            seen_of(*old(bridge)),
                            seen_of(*old(secondary)),
                            inject,
                            out,
                        ) && sent_packet(*old(self), *final(self), packet@, out) && recorded(
                            *old(recorder),
                            *final(recorder),
                            RecordChannel::Mic,
                            out,
                        )
                },
            },
    {
        if capture.occupied() < SAMPLES_PER_PACKET {
            return None;
        }
        let mic = capture.pop(SAMPLES_PER_PACKET);
        let got: usize = mic.len();
        let foreign = pop_from(bridge, got);
        let injected = pop_from(secondary, got);
        let ghost m = mic@;
        let packet = self.audio_packet(mic, &foreign, &injected, inject, recorder);
        proof {
            let out = outgoing(m, foreign@, injected@, inject);
            assert(took_counts(
                upcoming(*old(capture)),
                upcoming_of(*old(bridge)),
                upcoming_of(*old(secondary)),
                seen_of(*old(bridge)),
                seen_of(*old(secondary)),
                m.len() as int,
                foreign@.len() as int,
                injected@.len() as int,
            ));
            assert(took_audio(
                upcoming(*old(capture)),
                upcoming(*capture),
                upcoming_of(*old(bridge)),
                upcoming_of(*bridge),
                upcoming_of(*old(secondary)),
                upcoming_of(*secondary),
                seen_of(*old(bridge)),
                seen_of(*old(secondary)),
                inject,
                out,
            ));
            assert(sent_packet(*old(self), *self, packet@, out));
        }
        Some(packet)
    }

    /// The next packet of an event, if a digit is being sent or waits. There
    /// is one at most each time: events ride along at the pace of the audio.
    pub fn next_event_packet(&mut self) -> (r: Option<Vec<u8>>)
        requires
            old(self).wf(),
        ensures
            final(self).wf(),
            final(self).codec == old(self).codec,
            final(self).payload_type == old(self).payload_type,
            final(self).telephone_event_pt == old(self).telephone_event_pt,
            final(self).timestamp == old(self).timestamp,
            final(self).ssrc == old(self).ssrc,
            match due_event(*old(self)) {
                None => {
                    &&& r is None
                    &&& final(self).queue@ == old(self).queue@
                    &&& final(self).active == old(self).active
                    &&& final(self).sequence_number == old(self).sequence_number
                },
                Some(event) => {
                    &&& r matches Some(packet)
                    &&& packet@ == event.next_bytes(
                        old(self).telephone_event_pt->0,
                        old(self).ssrc,
                        old(self).sequence_number,
                    )
                    &&& final(self).sequence_number == (old(self).sequence_number + 1) % 0x1_0000
                    &&& final(self).queue@ == (if old(self).active is Some {
                        old(self).queue@
                    } else {
                        old(self).queue@.skip(1)
                    })
                    &&& event.remaining() == 1 ==> final(self).active is None
                    &&& event.remaining() != 1 ==> final(self).active == Some(
                        crate::media::dtmf::event_after(event, 1),
                    )
                },
            },
    {
        let pt: u8 = match self.telephone_event_pt {
            Some(pt) => pt,
            None => {
                return None;
            },
        };
        let ghost before = *self;
        let mut event = match self.active {
            Some(e) => e,
            None => {
                if self.queue.len() == 0 {
                    return None;
                }
                let req = self.queue.remove(0);
                assert(self.queue@ =~= before.queue@.skip(1));
                DtmfEventState::new(req, self.timestamp)
            },
        };
        let ghost first = event;
        assert(due_event(before) == Some(first));
        let mut seq: u16 = self.sequence_number;
        let (packet, done) = event.next_packet(pt, self.ssrc, &mut seq);
        self.sequence_number = seq;
        proof {
            reveal_with_fuel(crate::media::dtmf::event_after, 2);
            assert(event == crate::media::dtmf::event_after(first, 1));
        }
        self.active = if done {
            None
        } else {
            Some(event)
        };
        Some(packet)
    }
}

/// Whether so many samples can have been taken for one packet: as many from the
/// microphone as a packet holds, and no more from a joined call or another
/// application, but as many of theirs as had been seen.
pub open spec fn took_counts(
    capture: Seq<i16>,
    bridge: Seq<i16>,
    secondary: Seq<i16>,
    bridge_seen: nat,
    secondary_seen: nat,
    got: int,
    from_bridge: int,
    from_secondary: int,
) -> bool {
    &&& got == SAMPLES_PER_PACKET && got <= capture.len()
    &&& 0 <= from_bridge <= got && from_bridge <= bridge.len()
    &&& 0 <= from_secondary <= got && from_secondary <= secondary.len()
    &&& from_bridge < got ==> bridge_seen <= from_bridge
    &&& from_secondary < got ==> secondary_seen <= from_secondary
}

/// Whether `out` is the next audio of the three rings, mixed, and the rings
/// have moved on behind what was taken.
pub open spec fn took_audio(
    capture: Seq<i16>,
    capture_after: Seq<i16>,
    bridge: Seq<i16>,
    bridge_after: Seq<i16>,
    secondary: Seq<i16>,
    secondary_after: Seq<i16>,
    bridge_seen: nat,
    secondary_seen: nat,
    inject: bool,
    out: Seq<i16>,
) -> bool {
    exists|got: int, from_bridge: int, from_secondary: int|
        #[trigger] took_counts(
            capture,
            bridge,
            secondary,
            bridge_seen,
            secondary_seen,
            got,
            from_bridge,
            from_secondary,
        )
            && capture_after == capture.skip(got) && bridge_after == bridge.skip(from_bridge)
            && secondary_after == secondary.skip(from_secondary) && out == outgoing(
            capture.take(got),
            bridge.take(from_bridge),
            secondary.take(from_secondary),
            inject,
        )
}

/// Whether `packet` carries `out`, and the sender has moved on behind it.
pub open spec fn sent_packet(before: Sender, after: Sender, packet: Seq<u8>, out: Seq<i16>) -> bool {
    &&& exists|payload: Seq<u8>|
        packet == #[trigger] (before.audio_header().bytes() + payload) && encodes(
            before.table@,
            out,
            payload,
        )
    &&& after.same_but_for_numbers(before)
    &&& after.sequence_number == (before.sequence_number + 1) % 0x1_0000
    &&& after.timestamp == (before.timestamp + out.len()) % 0x1_0000_0000
}

// ---------------------------------------------------------------------------
// Laws

/// What the far end decodes of an audio packet is what was sent, but for the
/// error of the codec.
pub proof fn sent_audio_is_heard(
    codec: Codec,
    table: Seq<i16>,
    header: RtpHeader,
    samples: Seq<i16>,
    payload: Seq<u8>,
    i: int,
)
    requires
        codec.is_table(table),
        encodes(table, samples, payload),
        0 <= i < samples.len(),
    ensures
        payload_of(header.bytes() + payload) == payload,
        distance(codec.value(payload_of(header.bytes() + payload)[i]), samples[i] as int)
            <= error_bound(codec),
{
    crate::media::rtp::packet_reads_back(header, payload);
    assert(is_nearest(table, samples[i], payload[i] as int));
    crate::media::codec::round_trip_error_is_bounded(codec, table, samples[i], payload[i]);
}

/// Without a joined call or another application, what is sent is what was
/// captured.
pub proof fn nothing_is_added_alone(mic: Seq<i16>, inject: bool)
    ensures
        outgoing(mic, Seq::empty(), Seq::empty(), inject) == mic,
{
    assert(mixed(mic, Seq::empty()) =~= mic);
}

} // verus!
