//! RTP packets: the fixed header of twelve bytes and the payload after it.

use vstd::prelude::*;
use vstd::slice::slice_subrange;

use crate::media::error::MediaError;

verus! {

/// The fixed RTP header. No CSRC list or extension header is ever sent, but a
/// peer's CSRC list is skipped, so that the payload behind one is not
/// misread.
#[derive(Debug, Clone, Copy, PartialEq, Eq, Structural)]
pub struct RtpHeader {
    pub marker: bool,
    pub payload_type: u8,
    pub sequence_number: u16,
    pub timestamp: u32,
    pub ssrc: u32,
}

/// The two bytes of `n`, the more significant first.
pub open spec fn be16(n: u16) -> Seq<u8> {
    seq![(n / 256) as u8, (n % 256) as u8]
}

/// The four bytes of `n`, the most significant first.
pub open spec fn be32(n: u32) -> Seq<u8> {
    seq![
        (n / 0x100_0000) as u8,
        (n / 0x1_0000 % 256) as u8,
        (n / 0x100 % 256) as u8,
        (n % 256) as u8,
    ]
}

/// The number whose two bytes stand in `d` at `i`.
pub open spec fn value16(d: Seq<u8>, i: int) -> int {
    256 * d[i] + d[i + 1]
}

/// The number whose four bytes stand in `d` at `i`.
pub open spec fn value32(d: Seq<u8>, i: int) -> int {
    0x100_0000 * d[i] + 0x1_0000 * d[i + 1] + 0x100 * d[i + 2] + d[i + 3]
}

/// How many bytes the header of a packet takes, its CSRC list counted.
pub open spec fn header_len(d: Seq<u8>) -> int {
    12 + 4 * (d[0] % 16)
}

/// Whether `d` holds a whole header.
pub open spec fn long_enough(d: Seq<u8>) -> bool {
    d.len() >= 12 && d.len() >= header_len(d)
}

/// The header that the first twelve bytes of `d` hold.
pub open spec fn header_of(d: Seq<u8>) -> RtpHeader {
    RtpHeader {
        marker: d[1] >= 128,
        payload_type: (d[1] % 128) as u8,
        sequence_number: value16(d, 2) as u16,
        timestamp: value32(d, 4) as u32,
        ssrc: value32(d, 8) as u32,
    }
}

/// Whether `d` is a packet: version two, with a whole header.
pub open spec fn is_packet(d: Seq<u8>) -> bool {
    long_enough(d) && d[0] / 64 == 2
}

/// What stands behind the header of a packet.
pub open spec fn payload_of(d: Seq<u8>) -> Seq<u8> {
    d.skip(header_len(d))
}

impl RtpHeader {
    /// The bytes of the header. Only the low seven bits of the payload type
    /// have room in it.
    pub open spec fn bytes(self) -> Seq<u8> {
        seq![
            0x80u8,
            ((if self.marker {
                128int
            } else {
                0
            }) + self.payload_type % 128) as u8,
        ] + be16(self.sequence_number) + be32(self.timestamp) + be32(self.ssrc)
    }

    /// The bytes of the header.
    pub fn encode(&self) -> (buf: [u8; 12])
        ensures
            buf@ == self.bytes(),
    {
        let flag: u8 = if self.marker {
            128
        } else {
            0
        };
        let s = self.sequence_number;
        let t = self.timestamp;
        let r = self.ssrc;
        let buf: [u8; 12] = [
            0x80,
            flag + self.payload_type % 128,
            (s / 256) as u8,
            (s % 256) as u8,
            (t / 0x100_0000) as u8,
            (t / 0x1_0000 % 256) as u8,
            (t / 0x100 % 256) as u8,
            (t % 256) as u8,
            (r / 0x100_0000) as u8,
            (r / 0x1_0000 % 256) as u8,
            (r / 0x100 % 256) as u8,
            (r % 256) as u8,
        ];
        assert(buf@ =~= self.bytes());
        buf
    }

    /// Splits a packet into its header and its payload.
    pub fn decode(data: &[u8]) -> (r: Result<(RtpHeader, &[u8]), MediaError>)
        ensures
            match r {
                Ok((header, payload)) => {
                    &&& is_packet(data@)
                    &&& header == header_of(data@)
                    &&& payload@ == payload_of(data@)
                },
                Err(MediaError::RtpBadVersion(v)) => data@.len() >= 12 && v == data@[0] / 64 && v
                    != 2,
                Err(MediaError::RtpTooShort) => data@.len() < 12 || (data@[0] / 64 == 2
                    && !long_enough(data@)),
                Err(_) => false,
            },
    {
        if data.len() < 12 {
            return Err(MediaError::RtpTooShort);
        }
        let version: u8 = data[0] / 64;
        if version != 2 {
            return Err(MediaError::RtpBadVersion(version));
        }
        let header_len: usize = 12 + 4 * (data[0] % 16) as usize;
        if data.len() < header_len {
            return Err(MediaError::RtpTooShort);
        }
        let header = RtpHeader {
            marker: data[1] >= 128,
            payload_type: data[1] % 128,
            sequence_number: read16(data, 2),
            timestamp: read32(data, 4),
            ssrc: read32(data, 8),
        };
        let payload = slice_subrange(data, header_len, data.len());
        assert(payload@ =~= data@.skip(header_len as int));
        Ok((header, payload))
    }

    /// The header followed by `payload`.
    pub fn build_packet(&self, payload: &[u8]) -> (out: Vec<u8>)
        ensures
            out@ == self.bytes() + payload@,
    {
        let head = self.encode();
        let mut out: Vec<u8> = Vec::new();
        let mut i: usize = 0;
        while i < 12
            invariant
                i <= 12,
                head@ == self.bytes(),
                head@.len() == 12,
                out@ == head@.take(i as int),
            decreases 12 - i,
        {
            out.push(head[i]);
            i = i + 1;
            assert(head@.take(i as int) =~= head@.take(i - 1).push(head@[i - 1]));
        }
        let mut j: usize = 0;
        assert(out@ =~= head@ + payload@.take(0));
        while j < payload.len()
            invariant
                j <= payload@.len(),
                out@ == head@ + payload@.take(j as int),
            decreases payload.len() - j,
        {
            out.push(payload[j]);
            j = j + 1;
            assert(payload@.take(j as int) =~= payload@.take(j - 1).push(payload@[j - 1]));
            assert(out@ =~= head@ + payload@.take(j as int));
        }
        assert(payload@.take(payload@.len() as int) =~= payload@);
        out
    }
}

fn read16(d: &[u8], i: usize) -> (n: u16)
    requires
        i + 2 <= d@.len(),
    ensures
        n == value16(d@, i as int),
{
    256 * (d[i] as u16) + d[i + 1] as u16
}

fn read32(d: &[u8], i: usize) -> (n: u32)
    requires
        i + 4 <= d@.len(),
    ensures
        n == value32(d@, i as int),
{
    0x100_0000 * (d[i] as u32) + 0x1_0000 * (d[i + 1] as u32) + 0x100 * (d[i + 2] as u32) + d[i
        + 3] as u32
}

/// Reading a packet that was built from a header and a payload gives both
/// back; of the payload type its low seven bits.
pub proof fn packet_reads_back(header: RtpHeader, payload: Seq<u8>)
    ensures
        is_packet(header.bytes() + payload),
        header_of(header.bytes() + payload) == (RtpHeader {
            payload_type: (header.payload_type % 128) as u8,
            ..header
        }),
        payload_of(header.bytes() + payload) == payload,
{
    let packet = header.bytes() + payload;
    assert(packet.skip(12) =~= payload);
}

} // verus!
