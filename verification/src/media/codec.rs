//! G.711 in both its variants, mu-law and A-law.
//!
//! Decoding follows the textbook formulas. Encoding picks the code whose
//! decoded value lies nearest, so that it is right by definition: the first
//! such code where several are equally near.

use vstd::prelude::*;

verus! {

/// `t` times two to the power of `e`, for `e` below eight.
pub open spec fn shifted(t: int, e: int) -> int {
    if e == 0 {
        t
    } else if e == 1 {
        2 * t
    } else if e == 2 {
        4 * t
    } else if e == 3 {
        8 * t
    } else if e == 4 {
        16 * t
    } else if e == 5 {
        32 * t
    } else if e == 6 {
        64 * t
    } else {
        128 * t
    }
}

fn shift(t: i32, e: u8) -> (r: i32)
    requires
        0 <= t < 0x1000,
        e < 8,
    ensures
        r == shifted(t as int, e as int),
{
    match e {
        0 => t,
        1 => 2 * t,
        2 => 4 * t,
        3 => 8 * t,
        4 => 16 * t,
        5 => 32 * t,
        6 => 64 * t,
        _ => 128 * t,
    }
}

// ---------------------------------------------------------------------------
// mu-law

/// The magnitude that a mu-law exponent and mantissa stand for.
pub open spec fn ulaw_magnitude(exponent: int, mantissa: int) -> int {
    shifted(8 * mantissa + 132, exponent) - 132
}

/// The sample that a mu-law code stands for. All bits of the code are
/// inverted: sign, three bits of exponent, four bits of mantissa.
pub open spec fn ulaw_value(code: u8) -> int {
    let u = 255 - code;
    let magnitude = ulaw_magnitude((u / 16) % 8, u % 16);
    if u >= 128 {
        -magnitude
    } else {
        magnitude
    }
}

/// The sample that a mu-law code stands for.
pub fn ulaw_decode(code: u8) -> (sample: i16)
    ensures
        sample == ulaw_value(code),
{
    let u: u8 = 255 - code;
    let exponent: u8 = (u / 16) % 8;
    let mantissa: i32 = (u % 16) as i32;
    let magnitude: i32 = shift(8 * mantissa + 132, exponent) - 132;
    if u >= 128 {
        -magnitude as i16
    } else {
        magnitude as i16
    }
}

/// Whether `table` holds, for each code, the sample that it stands for.
pub open spec fn is_ulaw_table(table: Seq<i16>) -> bool {
    &&& table.len() == 256
    &&& forall|code: u8| (#[trigger] table[code as int]) == ulaw_value(code)
}

/// The decoded value of each of the codes.
pub fn build_decode_table() -> (table: [i16; 256])
    ensures
        is_ulaw_table(table@),
{
    let mut table: [i16; 256] = [0;256];
    let mut i: usize = 0;
    while i < 256
        invariant
            i <= 256,
            table@.len() == 256,
            forall|code: u8| code < i ==> (#[trigger] table@[code as int]) == ulaw_value(code),
        decreases 256 - i,
    {
        table[i] = ulaw_decode(i as u8);
        i = i + 1;
    }
    table
}

// ---------------------------------------------------------------------------
// A-law

/// The magnitude that an A-law segment and mantissa stand for.
pub open spec fn alaw_magnitude(segment: int, mantissa: int) -> int {
    if segment == 0 {
        16 * mantissa + 8
    } else {
        shifted(16 * mantissa + 264, segment - 1)
    }
}

/// The sample that an A-law code stands for. Every other bit of the code is
/// inverted: sign, three bits of segment, four bits of mantissa.
pub open spec fn alaw_value(code: u8) -> int {
    let a = code ^ 0x55;
    let magnitude = alaw_magnitude((a / 16) as int % 8, (a % 16) as int);
    if a >= 128 {
        magnitude
    } else {
        -magnitude
    }
}

/// The sample that an A-law code stands for.
pub fn alaw_decode(code: u8) -> (sample: i16)
    ensures
        sample == alaw_value(code),
{
    let a: u8 = code ^ 0x55;
    let segment: u8 = (a / 16) % 8;
    let mantissa: i32 = (a % 16) as i32;
    let magnitude: i32 = if segment == 0 {
        16 * mantissa + 8
    } else {
        shift(16 * mantissa + 264, segment - 1)
    };
    if a >= 128 {
        magnitude as i16
    } else {
        -magnitude as i16
    }
}

/// Whether `table` holds, for each code, the sample that it stands for.
pub open spec fn is_alaw_table(table: Seq<i16>) -> bool {
    &&& table.len() == 256
    &&& forall|code: u8| (#[trigger] table[code as int]) == alaw_value(code)
}

/// The decoded value of each of the codes.
pub fn build_alaw_decode_table() -> (table: [i16; 256])
    ensures
        is_alaw_table(table@),
{
    let mut table: [i16; 256] = [0;256];
    let mut i: usize = 0;
    while i < 256
        invariant
            i <= 256,
            table@.len() == 256,
            forall|code: u8| code < i ==> (#[trigger] table@[code as int]) == alaw_value(code),
        decreases 256 - i,
    {
        table[i] = alaw_decode(i as u8);
        i = i + 1;
    }
    table
}

// ---------------------------------------------------------------------------
// Encoding

/// How far apart two samples are.
pub open spec fn distance(a: int, b: int) -> int {
    if a >= b {
        a - b
    } else {
        b - a
    }
}

/// Whether `code` is the first of the codes whose entry lies nearest to
/// `sample`.
pub open spec fn is_nearest(table: Seq<i16>, sample: i16, code: int) -> bool {
    &&& 0 <= code < table.len()
    &&& forall|i: int|
        0 <= i < table.len() ==> distance(table[code] as int, sample as int) <= distance(
            #[trigger] table[i] as int,
            sample as int,
        )
    &&& forall|i: int|
        0 <= i < code ==> distance(table[code] as int, sample as int) < distance(
            #[trigger] table[i] as int,
            sample as int,
        )
}

fn nearest(table: &[i16; 256], sample: i16) -> (code: u8)
    ensures
        is_nearest(table@, sample, code as int),
{
    let mut best: usize = 0;
    let mut best_distance: i32 = if table[0] >= sample {
        table[0] as i32 - sample as i32
    } else {
        sample as i32 - table[0] as i32
    };
    let mut i: usize = 1;
    while i < 256
        invariant
            1 <= i <= 256,
            best < i,
            table@.len() == 256,
            best_distance == distance(table@[best as int] as int, sample as int),
            forall|j: int|
                0 <= j < i ==> best_distance <= distance(#[trigger] table@[j] as int, sample as int),
            forall|j: int|
                0 <= j < best ==> best_distance < distance(
                    #[trigger] table@[j] as int,
                    sample as int,
                ),
        decreases 256 - i,
    {
        let d: i32 = if table[i] >= sample {
            table[i] as i32 - sample as i32
        } else {
            sample as i32 - table[i] as i32
        };
        if d < best_distance {
            best = i;
            best_distance = d;
        }
        i = i + 1;
    }
    best as u8
}

/// The mu-law code nearest to `sample`.
pub fn ulaw_encode(table: &[i16; 256], sample: i16) -> (code: u8)
    ensures
        is_nearest(table@, sample, code as int),
{
    nearest(table, sample)
}

/// The A-law code nearest to `sample`.
pub fn alaw_encode(table: &[i16; 256], sample: i16) -> (code: u8)
    ensures
        is_nearest(table@, sample, code as int),
{
    nearest(table, sample)
}

// ---------------------------------------------------------------------------
// The codec of a session

/// Which variant of G.711 a session runs.
#[derive(Debug, Clone, Copy, PartialEq, Eq, Structural)]
pub enum Codec {
    Ulaw,
    Alaw,
}

impl Codec {
    /// The sample that `code` stands for in this codec.
    pub open spec fn value(self, code: u8) -> int {
        match self {
            Codec::Ulaw => ulaw_value(code),
            Codec::Alaw => alaw_value(code),
        }
    }

    /// Whether `table` holds this codec's sample for each code.
    pub open spec fn is_table(self, table: Seq<i16>) -> bool {
        match self {
            Codec::Ulaw => is_ulaw_table(table),
            Codec::Alaw => is_alaw_table(table),
        }
    }

    /// The codec of an RTP static payload type: A-law for eight, mu-law for
    /// anything else.
    pub fn from_payload_type(payload_type: u8) -> (codec: Self)
        ensures
            codec == (if payload_type == 8 {
                Codec::Alaw
            } else {
                Codec::Ulaw
            }),
    {
        match payload_type {
            8 => Codec::Alaw,
            _ => Codec::Ulaw,
        }
    }

    /// The decoded value of each of the codes.
    pub fn build_decode_table(self) -> (table: [i16; 256])
        ensures
            self.is_table(table@),
    {
        match self {
            Codec::Ulaw => build_decode_table(),
            Codec::Alaw => build_alaw_decode_table(),
        }
    }

    /// The code nearest to `sample`.
    pub fn encode(self, table: &[i16; 256], sample: i16) -> (code: u8)
        ensures
            is_nearest(table@, sample, code as int),
    {
        match self {
            Codec::Ulaw => ulaw_encode(table, sample),
            Codec::Alaw => alaw_encode(table, sample),
        }
    }

    /// The sample that `code` stands for.
    pub fn decode(self, code: u8) -> (sample: i16)
        ensures
            sample == self.value(code),
    {
        match self {
            Codec::Ulaw => ulaw_decode(code),
            Codec::Alaw => alaw_decode(code),
        }
    }
}

// ---------------------------------------------------------------------------
// Laws

/// The largest error of a round trip: at full scale for mu-law, in the
/// coarsest segment for A-law.
pub open spec fn error_bound(codec: Codec) -> int {
    match codec {
        Codec::Ulaw => 644,
        Codec::Alaw => 512,
    }
}

spec fn unshifted(t: int, e: int) -> int {
    if e == 0 {
        t
    } else if e == 1 {
        t / 2
    } else if e == 2 {
        t / 4
    } else if e == 3 {
        t / 8
    } else if e == 4 {
        t / 16
    } else if e == 5 {
        t / 32
    } else if e == 6 {
        t / 64
    } else {
        t / 128
    }
}

proof fn ulaw_near(a: int) -> (r: (int, int))
    requires
        0 <= a <= 32768,
    ensures
        0 <= r.0 < 8,
        0 <= r.1 < 16,
        distance(ulaw_magnitude(r.0, r.1), a) <= 644,
{
    let t = a + 132;
    let e: int = if t < 264 {
        0
    } else if t < 528 {
        1
    } else if t < 1056 {
        2
    } else if t < 2112 {
        3
    } else if t < 4224 {
        4
    } else if t < 8448 {
        5
    } else if t < 16896 {
        6
    } else {
        7
    };
    let q = unshifted(t, e);
    assert(132 <= q < 264);
    let m: int = (q - 128) / 8;
    if m < 16 {
        (e, m)
    } else if e == 7 || q <= 258 {
        (e, 15)
    } else {
        (e + 1, 0)
    }
}

proof fn alaw_near(a: int) -> (r: (int, int))
    requires
        0 <= a <= 32768,
    ensures
        0 <= r.0 < 8,
        0 <= r.1 < 16,
        distance(alaw_magnitude(r.0, r.1), a) <= 512,
{
    if a < 256 {
        (0, a / 16)
    } else {
        let s: int = if a < 528 {
            1
        } else if a < 1056 {
            2
        } else if a < 2112 {
            3
        } else if a < 4224 {
            4
        } else if a < 8448 {
            5
        } else if a < 16896 {
            6
        } else {
            7
        };
        let q = unshifted(a, s - 1);
        assert(256 <= q <= 528);
        let m: int = if q < 264 {
            0
        } else {
            (q - 256) / 16
        };
        if m < 16 {
            (s, m)
        } else if s == 7 || q <= 516 {
            (s, 15)
        } else {
            (s + 1, 0)
        }
    }
}

proof fn a_code_is_near(codec: Codec, sample: i16) -> (code: u8)
    ensures
        distance(codec.value(code), sample as int) <= error_bound(codec),
{
    let a: int = if sample >= 0 {
        sample as int
    } else {
        -sample
    };
    match codec {
        Codec::Ulaw => {
            let (e, m) = ulaw_near(a);
            let u: int = if sample >= 0 {
                16 * e + m
            } else {
                128 + 16 * e + m
            };
            let code = (255 - u) as u8;
            assert((u / 16) % 8 == e && u % 16 == m);
            code
        },
        Codec::Alaw => {
            let (s, m) = alaw_near(a);
            let x: u8 = (if sample >= 0 {
                128 + 16 * s + m
            } else {
                16 * s + m
            }) as u8;
            assert((x ^ 0x55) ^ 0x55 == x) by (bit_vector);
            assert((x / 16) as int % 8 == s && x % 16 == m);
            (x ^ 0x55) as u8
        },
    }
}

/// Encoding any sample and decoding it again is off by no more than the
/// codec's bound: 644 for mu-law, 512 for A-law.
pub proof fn round_trip_error_is_bounded(codec: Codec, table: Seq<i16>, sample: i16, code: u8)
    requires
        codec.is_table(table),
        is_nearest(table, sample, code as int),
    ensures
        distance(codec.value(code), sample as int) <= error_bound(codec),
{
    let near = a_code_is_near(codec, sample);
    assert(table[near as int] == codec.value(near));
    assert(table[code as int] == codec.value(code));
}

/// Encoding what a code stands for gives a code that stands for the same
/// sample: audio that has been through the codec once passes unchanged.
pub proof fn decoded_samples_survive(codec: Codec, table: Seq<i16>, first: u8, again: u8)
    requires
        codec.is_table(table),
        is_nearest(table, codec.value(first) as i16, again as int),
    ensures
        codec.value(again) == codec.value(first),
{
    assert(table[first as int] == codec.value(first));
    assert(table[again as int] == codec.value(again));
}

// ---------------------------------------------------------------------------
// A-law

/// With every other bit inverted, the codes from 128 on rise: the smallest
/// stands for 8, the largest for 32256. The first two segments of sixteen codes
/// go up in steps of 16; each segment after them has steps twice as large, and
/// the step into it is one and a half times the step before it.
pub proof fn alaw_codes_rise_in_steps(a: u8)
    requires
        128 <= a < 255,
    ensures
        ({
            let low = alaw_value((a ^ 0x55) as u8);
            let high = alaw_value(((a + 1) as u8 ^ 0x55) as u8);
            &&& low < high
            &&& a < 159 ==> high - low == 16
            &&& a == 128 ==> low == 8
            &&& a == 254 ==> high == 32256
            &&& 144 <= a < 239 && a % 16 != 15 ==> alaw_value(((a + 17) as u8 ^ 0x55) as u8)
                - alaw_value(((a + 16) as u8 ^ 0x55) as u8) == 2 * (high - low)
            &&& a >= 159 && a % 16 == 15 ==> 2 * (high - low) == 3 * (low - alaw_value(
                ((a - 1) as u8 ^ 0x55) as u8,
            ))
        }),
{
    even_bits_twice(a);
    even_bits_twice((a + 1) as u8);
    if a < 239 {
        even_bits_twice((a + 17) as u8);
        even_bits_twice((a + 16) as u8);
    }
    even_bits_twice((a - 1) as u8);
}

proof fn even_bits_twice(x: u8)
    ensures
        ((x ^ 0x55) ^ 0x55) == x,
{
    assert(((x ^ 0x55) ^ 0x55) == x) by (bit_vector);
}

/// A larger code, every other bit of it inverted, stands for a louder sample.
pub proof fn alaw_codes_are_ordered(a: u8, b: u8)
    requires
        128 <= a < b,
    ensures
        alaw_value((a ^ 0x55) as u8) < alaw_value((b ^ 0x55) as u8),
    decreases b - a,
{
    alaw_codes_rise_in_steps((b - 1) as u8);
    if a < b - 1 {
        alaw_codes_are_ordered(a, (b - 1) as u8);
    }
}

/// Without its highest bit, a code stands for the same sample below zero.
pub proof fn alaw_is_mirrored(a: u8)
    requires
        128 <= a,
    ensures
        alaw_value(((a - 128) as u8 ^ 0x55) as u8) == -alaw_value((a ^ 0x55) as u8),
{
    even_bits_twice(a);
    even_bits_twice((a - 128) as u8);
}

// ---------------------------------------------------------------------------
// mu-law

/// The codes from 128 on fall: the last stands for silence, the first for
/// 32124. Going back from the last, the first sixteen codes are 8 apart; in each
/// sixteen further back the steps are twice as large, and the step into it is
/// one and a half times the step before it.
pub proof fn ulaw_codes_fall_in_steps(code: u8)
    requires
        128 <= code < 255,
    ensures
        ({
            let louder = ulaw_value(code);
            let softer = ulaw_value((code + 1) as u8);
            &&& louder > softer
            &&& code == 254 ==> softer == 0
            &&& code == 128 ==> louder == 32124
            &&& code >= 240 ==> louder - softer == 8
            &&& code >= 144 && code % 16 != 15 ==> ulaw_value((code - 16) as u8) - ulaw_value(
                (code - 15) as u8,
            ) == 2 * (louder - softer)
            &&& code % 16 == 15 ==> 2 * (louder - softer) == 3 * (softer - ulaw_value(
                (code + 2) as u8,
            ))
        }),
{
}

/// A larger code stands for a softer sample.
pub proof fn ulaw_codes_are_ordered(a: u8, b: u8)
    requires
        128 <= a < b,
    ensures
        ulaw_value(a) > ulaw_value(b),
    decreases b - a,
{
    ulaw_codes_fall_in_steps(a);
    if a + 1 < b {
        ulaw_codes_are_ordered((a + 1) as u8, b);
    }
}

/// Without its highest bit, a code stands for the same sample below zero.
pub proof fn ulaw_is_mirrored(code: u8)
    requires
        128 <= code,
    ensures
        ulaw_value((code - 128) as u8) == -ulaw_value(code),
{
}

} // verus!
