//! RTP telephone events: how the digits of a dialpad travel in RTP packets.
//!
//! A digit is sent as a train of packets. All of them carry the timestamp at
//! which the event began, the first has the marker bit, and the last three
//! say that the event has ended, in case one of them is lost.

use vstd::prelude::*;

use crate::media::rtp::RtpHeader;

verus! {

/// How many samples an audio packet carries: 20 ms at 8000 Hz.
pub const SAMPLES_PER_PACKET: usize = 160;

/// The same in ticks of the RTP clock.
pub const TICKS_PER_PACKET: u32 = 160;

/// How often the end of an event is sent.
pub const DTMF_END_PACKET_REPEATS: u8 = 3;

/// The attenuation that is sent along, in dB below full scale.
pub const DTMF_VOLUME: u8 = 10;

/// The event code of a digit: 0 to 9, star, pound, then the letters A to D in
/// either case.
pub open spec fn event_code(digit: char) -> Option<u8> {
    if '0' <= digit <= '9' {
        Some((digit as u32 - 48) as u8)
    } else if digit == '*' {
        Some(10u8)
    } else if digit == '#' {
        Some(11u8)
    } else if 'A' <= digit <= 'D' {
        Some((digit as u32 - 65 + 12) as u8)
    } else if 'a' <= digit <= 'd' {
        Some((digit as u32 - 97 + 12) as u8)
    } else {
        None
    }
}

/// The digit of an event code.
pub open spec fn event_digit(code: u8) -> Option<char> {
    if code <= 9 {
        Some((48 + code) as char)
    } else if code == 10 {
        Some('*')
    } else if code == 11 {
        Some('#')
    } else if code <= 15 {
        Some((65 + code - 12) as char)
    } else {
        None
    }
}

/// The event code of a digit.
pub fn digit_to_event_code(digit: char) -> (r: Option<u8>)
    ensures
        r == event_code(digit),
{
    if '0' <= digit && digit <= '9' {
        Some(digit as u8 - 48)
    } else if digit == '*' {
        Some(10)
    } else if digit == '#' {
        Some(11)
    } else if 'A' <= digit && digit <= 'D' {
        Some(digit as u8 - 65 + 12)
    } else if 'a' <= digit && digit <= 'd' {
        Some(digit as u8 - 97 + 12)
    } else {
        None
    }
}

/// The digit of an event code.
pub fn event_code_to_digit(code: u8) -> (r: Option<char>)
    ensures
        r == event_digit(code),
{
    if code <= 9 {
        Some((48 + code) as char)
    } else if code == 10 {
        Some('*')
    } else if code == 11 {
        Some('#')
    } else if code <= 15 {
        Some((65 + (code - 12)) as char)
    } else {
        None
    }
}

/// The payload of an event packet.
pub open spec fn event_payload(event_code: u8, end: bool, volume: u8, duration: u16) -> Seq<u8> {
    seq![
        event_code,
        ((if end {
            128int
        } else {
            0
        }) + volume % 64) as u8,
        (duration / 256) as u8,
        (duration % 256) as u8,
    ]
}

/// The payload of an event packet: the code, the end bit with six bits of
/// volume, and the duration.
pub fn encode_telephone_event(event_code: u8, end: bool, volume: u8, duration: u16) -> (r: [u8; 4])
    ensures
        r@ == event_payload(event_code, end, volume, duration),
{
    let flag: u8 = if end {
        128
    } else {
        0
    };
    let r: [u8; 4] = [event_code, flag + volume % 64, (duration / 256) as u8, (duration % 256) as u8];
    assert(r@ =~= event_payload(event_code, end, volume, duration));
    r
}

/// A digit waiting to be sent.
#[derive(Debug, Clone, Copy, PartialEq, Eq, Structural)]
pub struct DtmfSend {
    pub digit: char,
    pub duration_ms: u32,
}

impl DtmfSend {
    /// Whether the duration fits in the 32 bits of the RTP clock.
    pub open spec fn fits(self) -> bool {
        self.duration_ms * 8 + TICKS_PER_PACKET <= u32::MAX
    }
}

/// Whether a digit can be sent as an event: the peer takes events, and the
/// digit has a code. Otherwise the caller has to send it some other way.
pub fn can_send_event(telephone_event_pt: Option<u8>, digit: char) -> (r: bool)
    ensures
        r == (telephone_event_pt is Some && event_code(digit) is Some),
{
    telephone_event_pt.is_some() && digit_to_event_code(digit).is_some()
}

/// An event that is being sent, one packet at a time.
#[derive(Debug, Clone, Copy, PartialEq, Eq, Structural)]
pub struct DtmfEventState {
    pub event_code: u8,
    /// The timestamp at the start of the event, which all its packets carry.
    pub start_timestamp: u32,
    pub elapsed_ticks: u32,
    pub total_ticks: u32,
    pub marker_sent: bool,
    pub end_packets_sent: u8,
}

/// How many packets it takes to cover `ticks`.
pub open spec fn packets_for(ticks: int) -> int {
    (ticks + TICKS_PER_PACKET - 1) / (TICKS_PER_PACKET as int)
}

impl DtmfEventState {
    /// The event is being sent and not over yet.
    pub open spec fn wf(self) -> bool {
        &&& self.elapsed_ticks <= self.total_ticks
        &&& self.total_ticks + TICKS_PER_PACKET <= u32::MAX
        &&& self.end_packets_sent < DTMF_END_PACKET_REPEATS
        &&& self.elapsed_ticks < self.total_ticks ==> self.end_packets_sent == 0
        &&& self.elapsed_ticks == self.total_ticks ==> self.end_packets_sent > 0
    }

    /// How many packets are still to be sent: those that cover the duration,
    /// the last of which is the first to say that the event has ended, and
    /// the repetitions of that one.
    pub open spec fn remaining(self) -> int {
        packets_for(self.total_ticks - self.elapsed_ticks) + (if self.elapsed_ticks
            < self.total_ticks {
            DTMF_END_PACKET_REPEATS - 1
        } else {
            DTMF_END_PACKET_REPEATS - self.end_packets_sent
        })
    }

    /// How far the event has come after the next packet.
    pub open spec fn next_elapsed(self) -> int {
        if self.elapsed_ticks + TICKS_PER_PACKET < self.total_ticks {
            self.elapsed_ticks + TICKS_PER_PACKET
        } else {
            self.total_ticks as int
        }
    }

    /// The next packet of the event.
    pub open spec fn next_bytes(self, payload_type: u8, ssrc: u32, sequence_number: u16) -> Seq<u8> {
        let elapsed = self.next_elapsed();
        let duration = if elapsed < 65535 {
            elapsed as u16
        } else {
            65535
        };
        RtpHeader {
            marker: !self.marker_sent,
            payload_type,
            sequence_number,
            timestamp: self.start_timestamp,
            ssrc,
        }.bytes() + event_payload(
            self.event_code,
            elapsed == self.total_ticks,
            DTMF_VOLUME,
            duration,
        )
    }

    /// The event for a digit, none of it sent. It lasts for one packet at
    /// least, however short the digit.
    pub fn new(req: DtmfSend, start_timestamp: u32) -> (r: Self)
        requires
            req.fits(),
        ensures
            r.wf(),
            r.event_code == (match event_code(req.digit) {
                Some(c) => c,
                None => 0,
            }),
            r.start_timestamp == start_timestamp,
            r.elapsed_ticks == 0,
            r.total_ticks == (if req.duration_ms * 8 < TICKS_PER_PACKET {
                TICKS_PER_PACKET as int
            } else {
                req.duration_ms * 8
            }),
            !r.marker_sent,
            r.end_packets_sent == 0,
            r.remaining() == packets_for(r.total_ticks as int) + 2,
    {
        let event_code: u8 = match digit_to_event_code(req.digit) {
            Some(c) => c,
            None => 0,
        };
        let ticks: u32 = req.duration_ms * 8;
        let total_ticks: u32 = if ticks < TICKS_PER_PACKET {
            TICKS_PER_PACKET
        } else {
            ticks
        };
        DtmfEventState {
            event_code,
            start_timestamp,
            elapsed_ticks: 0,
            total_ticks,
            marker_sent: false,
            end_packets_sent: 0,
        }
    }

    /// The next packet of the event, and whether it was the last.
    pub fn next_packet(&mut self, payload_type: u8, ssrc: u32, sequence_number: &mut u16) -> (r: (
        Vec<u8>,
        bool,
    ))
        requires
            old(self).wf(),
        ensures
            r.0@ == old(self).next_bytes(payload_type, ssrc, *old(sequence_number)),
            r.1 == (old(self).remaining() == 1),
            *final(sequence_number) == (*old(sequence_number) + 1) % 0x1_0000,
            final(self).remaining() == old(self).remaining() - 1,
            !r.1 ==> final(self).wf(),
            final(self).event_code == old(self).event_code,
            final(self).start_timestamp == old(self).start_timestamp,
            final(self).total_ticks == old(self).total_ticks,
            final(self).elapsed_ticks == old(self).next_elapsed(),
            final(self).marker_sent,
            final(self).end_packets_sent == old(self).end_packets_sent + (if old(
                self,
            ).next_elapsed() == old(self).total_ticks {
                1int
            } else {
                0
            }),
    {
        let marker = !self.marker_sent;
        self.marker_sent = true;
        if self.elapsed_ticks < self.total_ticks {
            let next: u32 = self.elapsed_ticks + TICKS_PER_PACKET;
            self.elapsed_ticks = if next < self.total_ticks {
                next
            } else {
                self.total_ticks
            };
        }
        let end = self.elapsed_ticks >= self.total_ticks;
        let duration: u16 = if self.elapsed_ticks < 65535 {
            self.elapsed_ticks as u16
        } else {
            65535
        };
        let payload = encode_telephone_event(self.event_code, end, DTMF_VOLUME, duration);
        let header = RtpHeader {
            marker,
            payload_type,
            sequence_number: *sequence_number,
            timestamp: self.start_timestamp,
            ssrc,
        };
        let packet = header.build_packet(payload.as_slice());
        *sequence_number = sequence_number.wrapping_add(1);
        if end {
            self.end_packets_sent = self.end_packets_sent + 1;
            (packet, self.end_packets_sent >= DTMF_END_PACKET_REPEATS)
        } else {
            (packet, false)
        }
    }
}

// ---------------------------------------------------------------------------
// Laws

/// A digit that has an event code comes back from it, the letters in upper
/// case; and every code that has a digit is that digit's code.
pub proof fn digits_round_trip(digit: char, code: u8)
    ensures
        event_code(digit) matches Some(c) ==> event_digit(c) == Some(
            if 'a' <= digit <= 'd' {
                (digit as u32 - 32) as char
            } else {
                digit
            },
        ),
        event_digit(code) matches Some(d) ==> event_code(d) == Some(code),
        event_digit(code) is Some <==> code < 16,
{
}

/// The states that an event goes through, `k` packets after `first`.
pub open spec fn event_after(first: DtmfEventState, k: int) -> DtmfEventState
    decreases k,
{
    if k <= 0 {
        first
    } else {
        let s = event_after(first, k - 1);
        DtmfEventState {
            elapsed_ticks: s.next_elapsed() as u32,
            marker_sent: true,
            end_packets_sent: (s.end_packets_sent + (if s.next_elapsed() == s.total_ticks {
                1int
            } else {
                0
            })) as u8,
            ..s
        }
    }
}

/// A train carries the marker on its first packet only, keeps the timestamp
/// at which the event began, and is `packets_for(total) + 2` packets long,
/// of which exactly the last three say that the event has ended.
pub proof fn event_train(first: DtmfEventState, k: int)
    requires
        first.wf(),
        first.elapsed_ticks == 0,
        first.end_packets_sent == 0,
        !first.marker_sent,
        0 <= k < packets_for(first.total_ticks as int) + 2,
    ensures
        event_after(first, k).wf(),
        event_after(first, k).start_timestamp == first.start_timestamp,
        event_after(first, k).event_code == first.event_code,
        event_after(first, k).total_ticks == first.total_ticks,
        event_after(first, k).marker_sent <==> k > 0,
        event_after(first, k).remaining() == packets_for(first.total_ticks as int) + 2 - k,
        event_after(first, k).next_elapsed() == first.total_ticks <==> event_after(
            first,
            k,
        ).remaining() <= DTMF_END_PACKET_REPEATS,
    decreases k,
{
    if k > 0 {
        event_train(first, k - 1);
    }
}

} // verus!
