//! Receiving: RTP packets become audio and digits.

use vstd::prelude::*;

use crate::media::codec::Codec;
use crate::media::dtmf::{
    event_after, event_code_to_digit, event_digit, event_train, packets_for, DtmfEventState,
};
use crate::media::record::{recorded, RecordChannel, Recorder};
use crate::media::reorder::{pushed, views, ReorderBuffer};
use crate::media::ring::{fed, push_to, SampleSink};
use crate::media::rtp::{header_of, is_packet, packet_reads_back, payload_of, RtpHeader};
use crate::net::IpAddress;

verus! {

/// What a received datagram turned out to be.
#[derive(Debug)]
pub enum Reception {
    /// Not for this call, or not to be understood.
    Ignored,
    /// Part of a digit.
    Event,
    /// Audio, decoded.
    Audio { sequence_number: u16, samples: Vec<i16> },
}

/// What an event packet says: the last event that was surfaced, and the digit
/// that this packet surfaces. The end of an event is sent several times; it
/// counts once, told by its code and the timestamp at which it began.
pub open spec fn event_step(last: Option<(u8, u32)>, timestamp: u32, payload: Seq<u8>) -> (
    Option<(u8, u32)>,
    Option<char>,
) {
    if payload.len() >= 2 && payload[1] >= 128 && last != Some((payload[0], timestamp)) {
        (Some((payload[0], timestamp)), event_digit(payload[0]))
    } else {
        (last, None)
    }
}

/// Samples that stand for the given codes.
pub open spec fn decoded(codec: Codec, payload: Seq<u8>) -> Seq<i16> {
    Seq::new(payload.len(), |i: int| codec.value(payload[i]) as i16)
}

/// `s`, and one more where there is one.
pub open spec fn with_digit(s: Seq<char>, digit: Option<char>) -> Seq<char> {
    match digit {
        Some(d) => s.push(d),
        None => s,
    }
}

/// The receiving half of a call's audio.
pub struct Receiver {
    pub codec: Codec,
    /// The only address that is listened to. The socket takes datagrams from
    /// anywhere, and a peer behind a NAT may change its port.
    pub remote_ip: IpAddress,
    pub payload_type: u8,
    pub telephone_event_pt: Option<u8>,
    pub reorder: ReorderBuffer,
    pub last_surfaced: Option<(u8, u32)>,
    pub digits: Vec<char>,
}

impl Receiver {
    pub open spec fn wf(self) -> bool {
        &&& self.reorder.wf()
        &&& self.codec == (if self.payload_type == 8 {
            Codec::Alaw
        } else {
            Codec::Ulaw
        })
    }

    /// Whether a datagram is a packet of this call's peer.
    pub open spec fn listens_to(self, from: IpAddress, data: Seq<u8>) -> bool {
        from == self.remote_ip && is_packet(data)
    }

    /// Whether a datagram is part of a digit.
    pub open spec fn is_event(self, from: IpAddress, data: Seq<u8>) -> bool {
        self.listens_to(from, data) && self.telephone_event_pt == Some(header_of(data).payload_type)
    }

    /// Whether a datagram is audio.
    pub open spec fn is_audio(self, from: IpAddress, data: Seq<u8>) -> bool {
        &&& self.listens_to(from, data)
        &&& !self.is_event(from, data)
        &&& self.payload_type == header_of(data).payload_type
    }

    /// A receiver that has heard nothing yet.
    pub fn new(remote_ip: IpAddress, payload_type: u8, telephone_event_pt: Option<u8>) -> (r: Self)
        ensures
            r.wf(),
            r.remote_ip == remote_ip,
            r.payload_type == payload_type,
            r.telephone_event_pt == telephone_event_pt,
            r.reorder.expected is None,
            r.reorder.pending@.len() == 0,
            r.last_surfaced is None,
            r.digits@.len() == 0,
    {
        Receiver {
            codec: Codec::from_payload_type(payload_type),
            remote_ip,
            payload_type,
            telephone_event_pt,
            reorder: ReorderBuffer::new(),
            last_surfaced: None,
            digits: Vec::new(),
        }
    }

    fn decode_all(&self, payload: &[u8]) -> (samples: Vec<i16>)
        ensures
            samples@ == decoded(self.codec, payload@),
    {
        let mut samples: Vec<i16> = Vec::new();
        let mut i: usize = 0;
        while i < payload.len()
            invariant
                i <= payload@.len(),
                samples@ == decoded(self.codec, payload@.take(i as int)),
            decreases payload.len() - i,
        {
            samples.push(self.codec.decode(payload[i]));
            i = i + 1;
            assert(samples@ =~= decoded(self.codec, payload@.take(i as int)));
        }
        assert(payload@.take(payload@.len() as int) =~= payload@);
        samples
    }

    /// Takes in a datagram. Digits are kept; audio is handed out decoded, to
    /// be brought to its volume and then played.
    pub fn receive(&mut self, from: IpAddress, data: &[u8]) -> (r: Reception)
        requires
            old(self).wf(),
        ensures
            final(self).wf(),
            final(self).codec == old(self).codec,
            final(self).remote_ip == old(self).remote_ip,
            final(self).payload_type == old(self).payload_type,
            final(self).telephone_event_pt == old(self).telephone_event_pt,
            final(self).reorder == old(self).reorder,
            match r {
                Reception::Ignored => !old(self).is_event(from, data@) && !old(self).is_audio(
                    from,
                    data@,
                ),
                Reception::Event => old(self).is_event(from, data@),
                Reception::Audio { sequence_number, samples } => {
                    &&& old(self).is_audio(from, data@)
                    &&& sequence_number == header_of(data@).sequence_number
                    &&& samples@ == decoded(old(self).codec, payload_of(data@))
                },
            },
            ({
                let step = if old(self).is_event(from, data@) {
                    event_step(
                        old(self).last_surfaced,
                        header_of(data@).timestamp,
                        payload_of(data@),
                    )
                } else {
                    (old(self).last_surfaced, None)
                };
                &&& final(self).last_surfaced == step.0
                &&& final(self).digits@ == with_digit(old(self).digits@, step.1)
            }),
    {
        if from != self.remote_ip {
            return Reception::Ignored;
        }
        match RtpHeader::decode(data) {
            Ok((header, payload)) => {
                let is_event = match self.telephone_event_pt {
                    Some(pt) => pt == header.payload_type,
                    None => false,
                };
                if is_event {
                    if payload.len() >= 2 {
                        let code: u8 = payload[0];
                        let end = payload[1] >= 128;
                        let seen = match self.last_surfaced {
                            Some((c, t)) => c == code && t == header.timestamp,
                            None => false,
                        };
                        if end && !seen {
                            match event_code_to_digit(code) {
                                Some(digit) => {
                                    self.digits.push(digit);
                                },
                                None => {},
                            }
                            self.last_surfaced = Some((code, header.timestamp));
                        }
                    }
                    return Reception::Event;
                }
                if header.payload_type != self.payload_type {
                    return Reception::Ignored;
                }
                let samples = self.decode_all(payload);
                Reception::Audio { sequence_number: header.sequence_number, samples }
            },
            Err(_) => Reception::Ignored,
        }
    }

    /// Takes in the audio of a packet, at its volume, and hands on whatever is
    /// due now: to a joined call, to the recording, to a second output and to
    /// playback.
    pub fn play(
        &mut self,
        sequence_number: u16,
        samples: Vec<i16>,
        bridge: &mut Option<SampleSink>,
        recorder: &mut Recorder,
        secondary: &mut Option<SampleSink>,
        playback: &mut Option<SampleSink>,
    ) -> (due: usize)
        requires
            old(self).wf(),
            old(recorder).wf(),
            old(recorder).has_room(
                RecordChannel::Remote,
                pushed(
                    views(old(self).reorder.pending@),
                    old(self).reorder.expected,
                    sequence_number,
                    samples@,
                ).out,
            ),
        ensures
            final(self).wf(),
            final(recorder).wf(),
            ({
                let r = pushed(
                    views(old(self).reorder.pending@),
                    old(self).reorder.expected,
                    sequence_number,
                    samples@,
                );
                &&& due == r.out.len()
                &&& views(final(self).reorder.pending@) == r.pending
                &&& final(self).reorder.expected == Some(r.expected)
                &&& fed(*old(bridge), *final(bridge), r.out)
                &&& recorded(*old(recorder), *final(recorder), RecordChannel::Remote, r.out)
                &&& fed(*old(secondary), *final(secondary), r.out)
                &&& fed(*old(playback), *final(playback), r.out)
            }),
            final(self).codec == old(self).codec,
            final(self).remote_ip == old(self).remote_ip,
            final(self).payload_type == old(self).payload_type,
            final(self).telephone_event_pt == old(self).telephone_event_pt,
            final(self).last_surfaced == old(self).last_surfaced,
            final(self).digits@ == old(self).digits@,
    {
        let ready = self.reorder.push(sequence_number, samples);
        push_to(bridge, &ready);
        recorder.record(RecordChannel::Remote, ready.as_slice());
        push_to(secondary, &ready);
        push_to(playback, &ready);
        ready.len()
    }

    /// Hands out the digits that have come in since the last time.
    pub fn drain_received_dtmf(&mut self) -> (digits: Vec<char>)
        ensures
            digits@ == old(self).digits@,
            final(self).digits@.len() == 0,
            final(self).codec == old(self).codec,
            final(self).remote_ip == old(self).remote_ip,
            final(self).payload_type == old(self).payload_type,
            final(self).telephone_event_pt == old(self).telephone_event_pt,
            final(self).reorder == old(self).reorder,
            final(self).last_surfaced == old(self).last_surfaced,
    {
        let mut digits: Vec<char> = Vec::new();
        digits.append(&mut self.digits);
        assert(digits@ =~= old(self).digits@);
        digits
    }
}

// ---------------------------------------------------------------------------
// Laws

/// Nothing that comes from another address than the peer's has any effect.
pub proof fn strangers_are_ignored(receiver: Receiver, from: IpAddress, data: Seq<u8>)
    requires
        from != receiver.remote_ip,
    ensures
        !receiver.is_event(from, data),
        !receiver.is_audio(from, data),
{
}

/// What has surfaced after the first `k` packets of an event train: the last
/// event, and the digits.
pub open spec fn heard(
    first: DtmfEventState,
    payload_type: u8,
    ssrc: u32,
    sequence_numbers: Seq<u16>,
    last: Option<(u8, u32)>,
    k: int,
) -> (Option<(u8, u32)>, Seq<char>)
    decreases k,
{
    if k <= 0 {
        (last, Seq::empty())
    } else {
        let before = heard(first, payload_type, ssrc, sequence_numbers, last, k - 1);
        let packet = event_after(first, k - 1).next_bytes(
            payload_type,
            ssrc,
            sequence_numbers[k - 1],
        );
        let step = event_step(before.0, header_of(packet).timestamp, payload_of(packet));
        (step.0, with_digit(before.1, step.1))
    }
}

/// A digit that is sent arrives exactly once: with the first packet that says
/// that it has ended, and not again with the repetitions of that packet.
pub proof fn digit_arrives_once(
    first: DtmfEventState,
    payload_type: u8,
    ssrc: u32,
    sequence_numbers: Seq<u16>,
    last: Option<(u8, u32)>,
    k: int,
)
    requires
        first.wf(),
        first.elapsed_ticks == 0,
        first.end_packets_sent == 0,
        !first.marker_sent,
        event_digit(first.event_code) is Some,
        last != Some((first.event_code, first.start_timestamp)),
        0 <= k <= packets_for(first.total_ticks as int) + 2,
    ensures
        heard(first, payload_type, ssrc, sequence_numbers, last, k).1 == (if k < packets_for(
            first.total_ticks as int,
        ) {
            Seq::<char>::empty()
        } else {
            seq![event_digit(first.event_code)->0]
        }),
        heard(first, payload_type, ssrc, sequence_numbers, last, k).0 == (if k < packets_for(
            first.total_ticks as int,
        ) {
            last
        } else {
            Some((first.event_code, first.start_timestamp))
        }),
    decreases k,
{
    if k > 0 {
        digit_arrives_once(first, payload_type, ssrc, sequence_numbers, last, k - 1);
        event_train(first, k - 1);
        let s = event_after(first, k - 1);
        let packet = s.next_bytes(payload_type, ssrc, sequence_numbers[k - 1]);
        let elapsed = s.next_elapsed();
        let header = RtpHeader {
            marker: !s.marker_sent,
            payload_type,
            sequence_number: sequence_numbers[k - 1],
            timestamp: s.start_timestamp,
            ssrc,
        };
        let payload = crate::media::dtmf::event_payload(
            s.event_code,
            elapsed == s.total_ticks,
            crate::media::dtmf::DTMF_VOLUME,
            if elapsed < 65535 {
                elapsed as u16
            } else {
                65535
            },
        );
        packet_reads_back(header, payload);
        assert(packet == header.bytes() + payload);
        assert(with_digit(Seq::<char>::empty(), event_digit(first.event_code)) =~= seq![
            event_digit(first.event_code)->0,
        ]);
    }
}

} // verus!
