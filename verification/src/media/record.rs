//! Call recordings.

use vstd::prelude::*;

verus! {

/// Which side of a call a chunk of audio comes from.
#[derive(Debug, Clone, Copy, PartialEq, Eq, Structural)]
pub enum RecordChannel {
    Mic,
    Remote,
}

/// `n`, or the nearest value that a sample can have.
pub open spec fn clamped(n: int) -> i16 {
    if n < -32768 {
        -32768i16
    } else if n > 32767 {
        32767i16
    } else {
        n as i16
    }
}

/// The sum of two samples, or the nearest value that a sample can have.
pub fn mix_samples(a: i16, b: i16) -> (r: i16)
    ensures
        r == clamped(a + b),
{
    let sum: i32 = a as i32 + b as i32;
    if sum < -32768 {
        -32768
    } else if sum > 32767 {
        32767
    } else {
        sum as i16
    }
}

/// The sample of `s` at `i`, silence behind its end.
pub open spec fn sample_at(s: Seq<i16>, i: int) -> int {
    if 0 <= i < s.len() {
        s[i] as int
    } else {
        0
    }
}

/// A recording as one timeline that both directions of a call write into.
/// Each has its own position, and adds its samples to what is there, so that
/// the two sides sum up instead of one wiping out the other.
#[derive(Debug)]
pub struct RecordMixer {
    pub samples: Vec<i16>,
    pub mic_pos: usize,
    pub remote_pos: usize,
}

/// `samples` with `chunk` added from `start` on, longer where it has to be.
pub open spec fn added(samples: Seq<i16>, start: int, chunk: Seq<i16>) -> Seq<i16> {
    let end = start + chunk.len();
    Seq::new(
        if samples.len() < end {
            end as nat
        } else {
            samples.len()
        },
        |i: int|
            if start <= i < end {
                clamped(sample_at(samples, i) + chunk[i - start])
            } else {
                sample_at(samples, i) as i16
            },
    )
}

impl RecordMixer {
    /// Both positions stand inside the timeline.
    pub open spec fn wf(self) -> bool {
        self.mic_pos <= self.samples@.len() && self.remote_pos <= self.samples@.len()
    }

    /// How far the given side has written.
    pub open spec fn pos(self, channel: RecordChannel) -> usize {
        match channel {
            RecordChannel::Mic => self.mic_pos,
            RecordChannel::Remote => self.remote_pos,
        }
    }

    /// The recording of a microphone that gave `mic` and a peer that gave
    /// `remote`.
    pub open spec fn records(self, mic: Seq<i16>, remote: Seq<i16>) -> bool {
        &&& self.mic_pos == mic.len()
        &&& self.remote_pos == remote.len()
        &&& self.samples@.len() == (if mic.len() < remote.len() {
            remote.len()
        } else {
            mic.len()
        })
        &&& forall|i: int|
            0 <= i < self.samples@.len() ==> (#[trigger] self.samples@[i]) == clamped(
                sample_at(mic, i) + sample_at(remote, i),
            )
    }

    /// An empty recording.
    pub fn new() -> (r: Self)
        ensures
            r.wf(),
            r.samples@ == Seq::<i16>::empty(),
            r.mic_pos == 0,
            r.remote_pos == 0,
            r.records(Seq::empty(), Seq::empty()),
    {
        RecordMixer { samples: Vec::new(), mic_pos: 0, remote_pos: 0 }
    }

    /// Adds `chunk` where the given side left off.
    pub fn mix_in(&mut self, channel: RecordChannel, chunk: &[i16])
        requires
            old(self).wf(),
            old(self).pos(channel) + chunk@.len() <= usize::MAX,
        ensures
            final(self).wf(),
            final(self).samples@ == added(
                old(self).samples@,
                old(self).pos(channel) as int,
                chunk@,
            ),
            final(self).pos(channel) == old(self).pos(channel) + chunk@.len(),
            channel is Mic ==> final(self).remote_pos == old(self).remote_pos,
            channel is Remote ==> final(self).mic_pos == old(self).mic_pos,
    {
        let start: usize = match channel {
            RecordChannel::Mic => self.mic_pos,
            RecordChannel::Remote => self.remote_pos,
        };
        let end: usize = start + chunk.len();
        let ghost before = self.samples@;
        if self.samples.len() < end {
            self.samples.resize(end, 0);
        }
        let ghost base = self.samples@;
        assert(forall|i: int| 0 <= i < base.len() ==> base[i] == sample_at(before, i));
        let mut i: usize = 0;
        while i < chunk.len()
            invariant
                i <= chunk@.len(),
                end == start + chunk@.len(),
                end <= base.len(),
                self.samples@.len() == base.len(),
                self.mic_pos == old(self).mic_pos,
                self.remote_pos == old(self).remote_pos,
                forall|j: int|
                    0 <= j < base.len() ==> (#[trigger] self.samples@[j]) == (if start <= j < start
                        + i {
                        clamped(base[j] + chunk@[j - start])
                    } else {
                        base[j]
                    }),
            decreases chunk.len() - i,
        {
            let idx: usize = start + i;
            let s: i16 = mix_samples(self.samples[idx], chunk[i]);
            self.samples.set(idx, s);
            i = i + 1;
        }
        match channel {
            RecordChannel::Mic => {
                self.mic_pos = end;
            },
            RecordChannel::Remote => {
                self.remote_pos = end;
            },
        }
        assert(self.samples@ =~= added(before, start as int, chunk@));
    }
}

/// Whichever way the chunks of the two sides interleave, the recording is the
/// sum of what each side gave, sample by sample: adding a chunk of one side
/// to the recording of both extends that side and leaves the other alone.
pub proof fn recording_is_the_sum(
    before: RecordMixer,
    after: RecordMixer,
    channel: RecordChannel,
    mic: Seq<i16>,
    remote: Seq<i16>,
    chunk: Seq<i16>,
)
    requires
        before.records(mic, remote),
        after.samples@ == added(before.samples@, before.pos(channel) as int, chunk),
        after.pos(channel) == before.pos(channel) + chunk.len(),
        channel is Mic ==> after.remote_pos == before.remote_pos,
        channel is Remote ==> after.mic_pos == before.mic_pos,
    ensures
        channel is Mic ==> after.records(mic + chunk, remote),
        channel is Remote ==> after.records(mic, remote + chunk),
{
    let (m, r) = if channel is Mic {
        (mic + chunk, remote)
    } else {
        (mic, remote + chunk)
    };
    assert forall|i: int| 0 <= i < after.samples@.len() implies (#[trigger] after.samples@[i])
        == clamped(sample_at(m, i) + sample_at(r, i)) by {
        if i < before.samples@.len() {
            assert(before.samples@[i] == clamped(sample_at(mic, i) + sample_at(remote, i)));
        }
    }
}

/// The recording of a call, while one is being made.
#[derive(Debug)]
pub struct Recorder {
    pub mixer: Option<RecordMixer>,
}

impl Recorder {
    pub open spec fn wf(self) -> bool {
        self.mixer matches Some(m) ==> m.wf()
    }

    /// Whether `n` samples can be added to the recording.
    pub open spec fn has_room_for(self, channel: RecordChannel, n: nat) -> bool {
        self.mixer matches Some(m) ==> m.pos(channel) + n <= usize::MAX
    }

    /// Whether `chunk` can be added to the recording.
    pub open spec fn has_room(self, channel: RecordChannel, chunk: Seq<i16>) -> bool {
        self.has_room_for(channel, chunk.len())
    }

    /// Whether `n` samples can be added to the recording.
    pub fn room_for(&self, channel: RecordChannel, n: usize) -> (r: bool)
        ensures
            r == self.has_room_for(channel, n as nat),
    {
        match &self.mixer {
            Some(m) => {
                let pos: usize = match channel {
                    RecordChannel::Mic => m.mic_pos,
                    RecordChannel::Remote => m.remote_pos,
                };
                pos <= usize::MAX - n
            },
            None => true,
        }
    }

    /// No recording.
    pub fn new() -> (r: Self)
        ensures
            r.mixer is None,
            r.wf(),
    {
        Recorder { mixer: None }
    }

    /// Starts a fresh recording; one that was being made is lost.
    pub fn start_recording(&mut self)
        ensures
            final(self).wf(),
            final(self).mixer matches Some(m) && m.records(Seq::empty(), Seq::empty()),
    {
        self.mixer = Some(RecordMixer::new());
    }

    /// Ends the recording and hands out its samples, if one was being made.
    pub fn stop_recording(&mut self) -> (r: Option<Vec<i16>>)
        ensures
            final(self).mixer is None,
            final(self).wf(),
            match old(self).mixer {
                Some(m) => r matches Some(v) && v@ == m.samples@,
                None => r is None,
            },
    {
        match self.mixer.take() {
            Some(m) => Some(m.samples),
            None => None,
        }
    }

    /// Adds `chunk` to the recording, if one is being made.
    pub fn record(&mut self, channel: RecordChannel, chunk: &[i16])
        requires
            old(self).wf(),
            old(self).has_room(channel, chunk@),
        ensures
            final(self).wf(),
            recorded(*old(self), *final(self), channel, chunk@),
    {
        match &mut self.mixer {
            Some(m) => {
                m.mix_in(channel, chunk);
            },
            None => {},
        }
    }
}

/// Whether `after` is `before` with `chunk` of one side added.
pub open spec fn recorded(
    before: Recorder,
    after: Recorder,
    channel: RecordChannel,
    chunk: Seq<i16>,
) -> bool {
    match (before.mixer, after.mixer) {
        (Some(b), Some(a)) => {
            &&& a.samples@ == added(b.samples@, b.pos(channel) as int, chunk)
            &&& a.pos(channel) == b.pos(channel) + chunk.len()
            &&& channel is Mic ==> a.remote_pos == b.remote_pos
            &&& channel is Remote ==> a.mic_pos == b.mic_pos
        },
        (None, None) => true,
        _ => false,
    }
}

// ---------------------------------------------------------------------------
// WAV files

/// The two bytes of `n`, the less significant first.
pub open spec fn le16(n: int) -> Seq<u8> {
    seq![(n % 256) as u8, (n / 256 % 256) as u8]
}

/// The four bytes of `n`, the least significant first.
pub open spec fn le32(n: int) -> Seq<u8> {
    seq![
        (n % 256) as u8,
        (n / 0x100 % 256) as u8,
        (n / 0x1_0000 % 256) as u8,
        (n / 0x100_0000 % 256) as u8,
    ]
}

/// The bits of a sample as an unsigned number.
pub open spec fn unsigned_sample(s: i16) -> int {
    if s < 0 {
        s + 0x1_0000
    } else {
        s as int
    }
}

/// The samples, two bytes each.
pub open spec fn pcm_bytes(samples: Seq<i16>) -> Seq<u8>
    decreases samples.len(),
{
    if samples.len() == 0 {
        Seq::empty()
    } else {
        pcm_bytes(samples.drop_last()) + le16(unsigned_sample(samples.last()))
    }
}

/// The length of the sample data, in the 32 bits that the file has for it.
pub open spec fn data_len(samples: Seq<i16>) -> int {
    (2 * samples.len()) as int % 0x1_0000_0000
}

/// The canonical header of a PCM file: mono, 8000 samples a second, 16 bits a
/// sample.
pub open spec fn wav_header(data_len: int) -> Seq<u8> {
    seq![0x52u8, 0x49, 0x46, 0x46] + le32(36 + data_len) + seq![
        0x57u8,
        0x41,
        0x56,
        0x45,
    ] + seq![0x66u8, 0x6d, 0x74, 0x20] + le32(16) + le16(1) + le16(1) + le32(8000) + le32(16000)
        + le16(2) + le16(16) + seq![0x64u8, 0x61, 0x74, 0x61] + le32(data_len)
}

fn push_le16(out: &mut Vec<u8>, n: u16)
    ensures
        final(out)@ == old(out)@ + le16(n as int),
{
    out.push((n % 256) as u8);
    out.push((n / 256) as u8);
    assert(out@ =~= old(out)@ + le16(n as int));
}

fn push_le32(out: &mut Vec<u8>, n: u32)
    ensures
        final(out)@ == old(out)@ + le32(n as int),
{
    out.push((n % 256) as u8);
    out.push((n / 0x100 % 256) as u8);
    out.push((n / 0x1_0000 % 256) as u8);
    out.push((n / 0x100_0000) as u8);
    assert(out@ =~= old(out)@ + le32(n as int));
}

fn push_tag(out: &mut Vec<u8>, a: u8, b: u8, c: u8, d: u8)
    ensures
        final(out)@ == old(out)@ + seq![a, b, c, d],
{
    out.push(a);
    out.push(b);
    out.push(c);
    out.push(d);
    assert(out@ =~= old(out)@ + seq![a, b, c, d]);
}

/// Appends the samples, two bytes each.
pub fn push_pcm(out: &mut Vec<u8>, samples: &[i16])
    ensures
        final(out)@ == old(out)@ + pcm_bytes(samples@),
{
    let mut i: usize = 0;
    assert(out@ =~= old(out)@ + pcm_bytes(samples@.take(0)));
    while i < samples.len()
        invariant
            i <= samples@.len(),
            out@ == old(out)@ + pcm_bytes(samples@.take(i as int)),
        decreases samples.len() - i,
    {
        let s: i16 = samples[i];
        let u: u16 = if s < 0 {
            (s as i32 + 0x1_0000) as u16
        } else {
            s as u16
        };
        push_le16(out, u);
        i = i + 1;
        assert(samples@.take(i as int).drop_last() =~= samples@.take(i - 1));
        assert(out@ =~= old(out)@ + pcm_bytes(samples@.take(i as int)));
    }
    assert(samples@.take(samples@.len() as int) =~= samples@);
}

/// A whole WAV file with the given samples.
pub fn wav_bytes(samples: &[i16]) -> (out: Vec<u8>)
    requires
        36 + data_len(samples@) <= u32::MAX,
    ensures
        out@ == wav_header(data_len(samples@)) + pcm_bytes(samples@),
{
    let len: u64 = samples.len() as u64;
    let size: u32 = 2 * ((len % 0x8000_0000) as u32);
    assert(size == data_len(samples@));
    let mut out: Vec<u8> = Vec::new();
    push_tag(&mut out, 0x52, 0x49, 0x46, 0x46);
    push_le32(&mut out, 36 + size);
    push_tag(&mut out, 0x57, 0x41, 0x56, 0x45);
    push_tag(&mut out, 0x66, 0x6d, 0x74, 0x20);
    push_le32(&mut out, 16);
    push_le16(&mut out, 1);
    push_le16(&mut out, 1);
    push_le32(&mut out, 8000);
    push_le32(&mut out, 16000);
    push_le16(&mut out, 2);
    push_le16(&mut out, 16);
    push_tag(&mut out, 0x64, 0x61, 0x74, 0x61);
    push_le32(&mut out, size);
    assert(out@ =~= wav_header(size as int));
    push_pcm(&mut out, samples);
    out
}

proof fn pcm_bytes_at(samples: Seq<i16>, i: int)
    requires
        0 <= i < samples.len(),
    ensures
        pcm_bytes(samples).len() == 2 * samples.len(),
        pcm_bytes(samples)[2 * i] + 256 * pcm_bytes(samples)[2 * i + 1] == unsigned_sample(
            samples[i],
        ),
    decreases samples.len(),
{
    let head = samples.drop_last();
    if head.len() > 0 {
        pcm_bytes_at(
            head,
            if i < head.len() {
                i
            } else {
                0
            },
        );
    }
    assert(pcm_bytes(head).len() == 2 * head.len());
}

/// The sample data of a file gives every sample back: each stands at its
/// place behind the header of 44 bytes, in two bytes.
pub proof fn wav_keeps_every_sample(samples: Seq<i16>, i: int)
    requires
        0 <= i < samples.len(),
    ensures
        ({
            let file = wav_header(data_len(samples)) + pcm_bytes(samples);
            &&& file.len() == 44 + 2 * samples.len()
            &&& file[44 + 2 * i] + 256 * file[44 + 2 * i + 1] == unsigned_sample(samples[i])
        }),
{
    pcm_bytes_at(samples, i);
    assert(wav_header(data_len(samples)).len() == 44);
}

/// The header of a recording, read field by field: uncompressed samples, one
/// channel, 8000 of them a second, two bytes each; so many bytes a second and a
/// frame as follow from that; and the lengths of what comes behind each of the
/// two length fields.
pub proof fn wav_header_tells_the_format(samples: Seq<i16>)
    requires
        36 + 2 * samples.len() <= u32::MAX,
    ensures
        ({
            let f = wav_header(data_len(samples)) + pcm_bytes(samples);
            let channels = f[22] + 256 * f[23];
            let rate = f[24] + 0x100 * f[25] + 0x1_0000 * f[26] + 0x100_0000 * f[27];
            let a_second = f[28] + 0x100 * f[29] + 0x1_0000 * f[30] + 0x100_0000 * f[31];
            let a_frame = f[32] + 256 * f[33];
            let bits = f[34] + 256 * f[35];
            let data = f[40] + 0x100 * f[41] + 0x1_0000 * f[42] + 0x100_0000 * f[43];
            &&& f.len() >= 44
            &&& f.take(4) == seq![82u8, 73, 70, 70]
            &&& f[4] + 0x100 * f[5] + 0x1_0000 * f[6] + 0x100_0000 * f[7] == f.len() - 8
            &&& f.subrange(8, 16) == seq![87u8, 65, 86, 69, 102, 109, 116, 32]
            &&& f[16] + 0x100 * f[17] + 0x1_0000 * f[18] + 0x100_0000 * f[19] == 16
            &&& f[20] + 256 * f[21] == 1
            &&& channels == 1
            &&& rate == 8000
            &&& bits == 16
            &&& 8 * a_frame == channels * bits
            &&& a_second == rate * a_frame
            &&& f.subrange(36, 40) == seq![100u8, 97, 116, 97]
            &&& data == f.len() - 44
            &&& data == a_frame * samples.len()
        }),
{
    let n = data_len(samples);
    let h = wav_header(n);
    let f = h + pcm_bytes(samples);
    if samples.len() > 0 {
        pcm_bytes_at(samples, 0);
    }
    assert(n == 2 * samples.len());
    wav_header_bytes(n);
    assert forall|i: int| 0 <= i < 44 implies #[trigger] f[i] == h[i] by {}
    assert(f.take(4) =~= h.take(4));
    assert(f.subrange(8, 16) =~= h.subrange(8, 16));
    assert(f.subrange(36, 40) =~= h.subrange(36, 40));
    let channels = f[22] + 256 * f[23];
    let rate = f[24] + 0x100 * f[25] + 0x1_0000 * f[26] + 0x100_0000 * f[27];
    let a_frame = f[32] + 256 * f[33];
    let bits = f[34] + 256 * f[35];
    assert(channels * bits == 16) by (nonlinear_arith)
        requires
            channels == 1,
            bits == 16,
    ;
    assert(rate * a_frame == 16000) by (nonlinear_arith)
        requires
            rate == 8000,
            a_frame == 2,
    ;
    assert(a_frame * samples.len() == 2 * samples.len()) by (nonlinear_arith)
        requires
            a_frame == 2,
    ;
}

proof fn wav_header_bytes(n: int)
    requires
        0 <= n,
        36 + n <= u32::MAX,
    ensures
        ({
            let h = wav_header(n);
            &&& h.len() == 44
            &&& h.take(4) == seq![82u8, 73, 70, 70]
            &&& h[4] + 0x100 * h[5] + 0x1_0000 * h[6] + 0x100_0000 * h[7] == 36 + n
            &&& h.subrange(8, 16) == seq![87u8, 65, 86, 69, 102, 109, 116, 32]
            &&& h[16] == 16 && h[17] == 0 && h[18] == 0 && h[19] == 0
            &&& h[20] == 1 && h[21] == 0 && h[22] == 1 && h[23] == 0
            &&& h[24] == 64 && h[25] == 31 && h[26] == 0 && h[27] == 0
            &&& h[28] == 128 && h[29] == 62 && h[30] == 0 && h[31] == 0
            &&& h[32] == 2 && h[33] == 0 && h[34] == 16 && h[35] == 0
            &&& h.subrange(36, 40) == seq![100u8, 97, 116, 97]
            &&& h[40] + 0x100 * h[41] + 0x1_0000 * h[42] + 0x100_0000 * h[43] == n
        }),
{
    let h = wav_header(n);
    let riff = seq![0x52u8, 0x49, 0x46, 0x46] + le32(36 + n);
    let fmt = seq![0x57u8, 0x41, 0x56, 0x45] + seq![0x66u8, 0x6d, 0x74, 0x20];
    let format = le32(16) + le16(1) + le16(1) + le32(8000) + le32(16000) + le16(2) + le16(16);
    let data = seq![0x64u8, 0x61, 0x74, 0x61] + le32(n);
    assert(h =~= riff + fmt + format + data);
    le32_reads_back(36 + n);
    le32_reads_back(n);
    assert(format =~= seq![
        16u8, 0, 0, 0, 1, 0, 1, 0, 64, 31, 0, 0, 128, 62, 0, 0, 2, 0, 16, 0,
    ]);
    assert(h.take(4) =~= seq![82u8, 73, 70, 70]);
    assert(h.subrange(8, 16) =~= seq![87u8, 65, 86, 69, 102, 109, 116, 32]);
    assert(h.subrange(36, 40) =~= seq![100u8, 97, 116, 97]);
    assert forall|k: int| 0 <= k < 20 implies #[trigger] format[k] == h[16 + k] by {}
    assert(h[16] == format[0] && h[17] == format[1] && h[18] == format[2] && h[19] == format[3]);
    assert(h[20] == format[4] && h[21] == format[5] && h[22] == format[6] && h[23] == format[7]);
    assert(h[24] == format[8] && h[25] == format[9] && h[26] == format[10] && h[27]
        == format[11]);
    assert(h[28] == format[12] && h[29] == format[13] && h[30] == format[14] && h[31]
        == format[15]);
    assert(h[32] == format[16] && h[33] == format[17] && h[34] == format[18] && h[35]
        == format[19]);
}

proof fn le32_reads_back(n: int)
    requires
        0 <= n <= u32::MAX,
    ensures
        le32(n)[0] + 0x100 * le32(n)[1] + 0x1_0000 * le32(n)[2] + 0x100_0000 * le32(n)[3] == n,
{
}

} // verus!
