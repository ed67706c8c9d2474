use vstd::prelude::*;

verus! {

/// The most samples one container can carry: the RIFF chunk size field is
/// 32 bits and counts 36 header bytes plus two bytes per sample.
pub const MAX_WAV_SAMPLES: usize = 2147483629;

/// Format metadata negotiated from the capture device's default input
/// configuration. Bit depth is fixed at 16 and samples are signed integers.
#[derive(Clone, Copy, PartialEq, Eq, Structural, Debug)]
pub struct WavFormat {
    pub channels: u16,
    pub sample_rate: u32,
}

impl WavFormat {
    /// A format the container header can describe: at least one channel,
    /// and a block alignment and byte rate that fit their header fields.
    pub open spec fn valid(&self) -> bool {
        &&& 1 <= self.channels
        &&& (self.channels as int) * 2 <= 0xFFFF
        &&& (self.sample_rate as int) * (self.channels as int) * 2 <= 0xFFFFFFFF
    }

    /// Decides `valid`.
    pub fn is_valid(&self) -> (r: bool)
        ensures
            r == self.valid(),
    {
        let sr = self.sample_rate as u64;
        let ch = self.channels as u64;
        proof {
            assert(sr as int * ch as int <= 0xFFFFFFFF * 0xFFFF) by (nonlinear_arith)
                requires
                    sr as int <= 0xFFFFFFFF,
                    ch as int <= 0xFFFF,
            ;
        }
        1 <= self.channels && (self.channels as u32) * 2 <= 0xFFFF && sr * ch * 2 <= 0xFFFFFFFF
    }
}

/// The two little-endian bytes of a 16-bit header field.
pub open spec fn le16(x: int) -> Seq<u8> {
    seq![(x % 256) as u8, ((x / 256) % 256) as u8]
}

/// The four little-endian bytes of a 32-bit header field.
pub open spec fn le32(x: int) -> Seq<u8> {
    seq![
        (x % 256) as u8,
        ((x / 256) % 256) as u8,
        ((x / 65536) % 256) as u8,
        ((x / 16777216) % 256) as u8,
    ]
}

/// A sample's two's-complement 16-bit value as an unsigned word.
pub open spec fn sample_word(s: i16) -> int {
    if s >= 0 {
        s as int
    } else {
        s as int + 65536
    }
}

/// The data section: each sample as two little-endian bytes, in order.
pub open spec fn sample_data(s: Seq<i16>) -> Seq<u8>
    decreases s.len(),
{
    if s.len() == 0 {
        Seq::empty()
    } else {
        sample_data(s.drop_last()) + le16(sample_word(s.last()))
    }
}

/// The 44-byte container header describing `n` 16-bit integer samples:
/// RIFF/WAVE tags, a PCM format chunk carrying channel count, sample rate,
/// byte rate, block alignment and bit depth, and the data chunk tag.
pub open spec fn wav_header(fmt: WavFormat, n: int) -> Seq<u8> {
    seq![82u8, 73u8, 70u8, 70u8] + le32(36 + 2 * n) + seq![87u8, 65u8, 86u8, 69u8]
        + seq![102u8, 109u8, 116u8, 32u8] + le32(16) + le16(1) + le16(fmt.channels as int)
        + le32(fmt.sample_rate as int) + le32(
        (fmt.sample_rate as int) * (fmt.channels as int) * 2,
    ) + le16((fmt.channels as int) * 2) + le16(16) + seq![100u8, 97u8, 116u8, 97u8] + le32(2 * n)
}

/// The complete container: header followed by the samples in order.
pub open spec fn spec_wav_encode(fmt: WavFormat, samples: Seq<i16>) -> Seq<u8> {
    wav_header(fmt, samples.len() as int) + sample_data(samples)
}

/// Appends the two little-endian bytes of `x`.
fn push_u16_le(out: &mut Vec<u8>, x: u16)
    ensures
        final(out)@ == old(out)@ + le16(x as int),
{
    out.push((x % 256) as u8);
    out.push((x / 256) as u8);
    proof {
        assert(out@ =~= old(out)@ + le16(x as int));
    }
}

/// Appends the four little-endian bytes of `x`.
fn push_u32_le(out: &mut Vec<u8>, x: u32)
    ensures
        final(out)@ == old(out)@ + le32(x as int),
{
    out.push((x % 256) as u8);
    out.push(((x / 256) % 256) as u8);
    out.push(((x / 65536) % 256) as u8);
    out.push((x / 16777216) as u8);
    proof {
        assert(x as int / 16777216 == (x as int / 16777216) % 256) by {
            assert(x as int / 16777216 < 256);
        }
        assert(out@ =~= old(out)@ + le32(x as int));
    }
}

/// A sample as the unsigned word the container stores.
fn sample_to_word(s: i16) -> (w: u16)
    ensures
        w as int == sample_word(s),
{
    if s >= 0 {
        s as u16
    } else {
        ((s as i32) + 65536) as u16
    }
}

/// Encodes the samples as a self-describing container: a header recording
/// channel count, sample rate, 16-bit depth and integer encoding, followed
/// by every sample, in order, as two little-endian bytes.
pub fn encode_wav(format: WavFormat, samples: &Vec<i16>) -> (out: Vec<u8>)
    requires
        format.valid(),
        samples@.len() <= MAX_WAV_SAMPLES,
    ensures
        out@ == spec_wav_encode(format, samples@),
{
    let n = samples.len();
    let data_len: u32 = (n as u32) * 2;
    let mut out: Vec<u8> = Vec::new();
    out.push(82);
    out.push(73);
    out.push(70);
    out.push(70);
    push_u32_le(&mut out, 36 + data_len);
    out.push(87);
    out.push(65);
    out.push(86);
    out.push(69);
    out.push(102);
    out.push(109);
    out.push(116);
    out.push(32);
    push_u32_le(&mut out, 16);
    push_u16_le(&mut out, 1);
    push_u16_le(&mut out, format.channels);
    push_u32_le(&mut out, format.sample_rate);
    push_u32_le(&mut out, format.sample_rate * (format.channels as u32) * 2);
    push_u16_le(&mut out, format.channels * 2);
    push_u16_le(&mut out, 16);
    out.push(100);
    out.push(97);
    out.push(116);
    out.push(97);
    push_u32_le(&mut out, data_len);
    proof {
        assert(out@ =~= wav_header(format, n as int));
    }
    let ghost header = out@;
    let mut i: usize = 0;
    proof {
        assert(samples@.subrange(0, 0) =~= Seq::<i16>::empty());
        assert(out@ =~= header + sample_data(samples@.subrange(0, 0)));
    }
    while i < n
        invariant
            i <= n,
            n == samples@.len(),
            out@ == header + sample_data(samples@.subrange(0, i as int)),
        decreases n - i,
    {
        let w = sample_to_word(samples[i]);
        push_u16_le(&mut out, w);
        proof {
            assert(samples@.subrange(0, i as int + 1).drop_last()
                =~= samples@.subrange(0, i as int));
            assert(samples@.subrange(0, i as int + 1).last() == samples@[i as int]);
            assert(out@ =~= header + sample_data(samples@.subrange(0, i as int + 1)));
        }
        i = i + 1;
    }
    proof {
        assert(samples@.subrange(0, n as int) =~= samples@);
    }
    out
}

/// The persisted, self-describing audio container produced by one recording
/// session, together with the format it records. Never mutated once made.
#[derive(Debug)]
pub struct AudioArtifact {
    pub format: WavFormat,
    pub data: Vec<u8>,
}

/// Consumes the hand-off channel's samples and materializes the audio
/// artifact. The drain loop feeds every received sample to `push_sample` in
/// delivery order; when the channel closes, `finalize` — which consumes the
/// sink, so it can happen only once — produces the container.
#[derive(Debug)]
pub struct CaptureSink {
    format: WavFormat,
    samples: Vec<i16>,
}

impl CaptureSink {
    /// The format the sink was opened with.
    pub closed spec fn format_spec(&self) -> WavFormat {
        self.format
    }

    /// The samples accepted so far, in arrival order.
    pub closed spec fn view(&self) -> Seq<i16> {
        self.samples@
    }

    pub closed spec fn wf(&self) -> bool {
        self.format.valid() && self.samples@.len() <= MAX_WAV_SAMPLES
    }

    /// Opens a sink for one capture session.
    pub fn new(format: WavFormat) -> (r: Self)
        requires
            format.valid(),
        ensures
            r.wf(),
            r.format_spec() == format,
            r@ =~= Seq::<i16>::empty(),
    {
        CaptureSink { format, samples: Vec::new() }
    }

    /// Accepts one sample from the hand-off channel. Returns false — leaving
    /// the sink unchanged — only when the container is full.
    pub fn push_sample(&mut self, s: i16) -> (accepted: bool)
        requires
            old(self).wf(),
        ensures
            final(self).wf(),
            final(self).format_spec() == old(self).format_spec(),
            accepted ==> final(self)@ == old(self)@.push(s),
            !accepted ==> final(self)@ == old(self)@ && old(self)@.len() == MAX_WAV_SAMPLES,
    {
        if self.samples.len() < MAX_WAV_SAMPLES {
            self.samples.push(s);
            true
        } else {
            false
        }
    }

    /// How many samples the sink holds.
    pub fn sample_count(&self) -> (n: usize)
        ensures
            n == self@.len(),
    {
        self.samples.len()
    }

    /// Closes the session: encodes the header and every accepted sample, in
    /// order, into the artifact. Consuming the sink makes finalization
    /// happen exactly once.
    pub fn finalize(self) -> (a: AudioArtifact)
        requires
            self.wf(),
        ensures
            a.format == self.format_spec(),
            a.data@ == spec_wav_encode(self.format_spec(), self@),
    {
        let data = encode_wav(self.format, &self.samples);
        AudioArtifact { format: self.format, data }
    }
}

/// The number of samples a container's byte length implies.
pub open spec fn wav_sample_count(bytes: Seq<u8>) -> int {
    (bytes.len() - 44) / 2
}

/// The `i`-th sample stored in a container, read back from its two
/// little-endian data bytes as a two's-complement value.
pub open spec fn wav_sample_at(bytes: Seq<u8>, i: int) -> int {
    let w = (bytes[44 + 2 * i] as int) + 256 * (bytes[44 + 2 * i + 1] as int);
    if w < 32768 {
        w
    } else {
        w - 65536
    }
}

proof fn lemma_sample_data_len(s: Seq<i16>)
    ensures
        sample_data(s).len() == 2 * s.len(),
    decreases s.len(),
{
    if s.len() > 0 {
        lemma_sample_data_len(s.drop_last());
    }
}

proof fn lemma_sample_data_index(s: Seq<i16>, i: int)
    requires
        0 <= i < s.len(),
    ensures
        sample_data(s)[2 * i] == (sample_word(s[i]) % 256) as u8,
        sample_data(s)[2 * i + 1] == (sample_word(s[i]) / 256) as u8,
    decreases s.len(),
{
    lemma_sample_data_len(s.drop_last());
    if i < s.len() - 1 {
        lemma_sample_data_index(s.drop_last(), i);
        assert(s.drop_last()[i] == s[i]);
    } else {
        assert(sample_word(s.last()) < 65536);
        assert(sample_word(s.last()) / 256 < 256);
    }
}

/// The container is self-describing: its header records the sample encoding
/// (PCM integer), the channel count, the sample rate, and the fixed 16-bit
/// depth at their standard offsets.
pub proof fn lemma_header_describes_format(fmt: WavFormat, samples: Seq<i16>)
    requires
        fmt.valid(),
    ensures
        ({
            let bytes = spec_wav_encode(fmt, samples);
            &&& (bytes[20] as int) + 256 * (bytes[21] as int) == 1
            &&& (bytes[22] as int) + 256 * (bytes[23] as int) == fmt.channels as int
            &&& (bytes[24] as int) + 256 * (bytes[25] as int) + 65536 * (bytes[26] as int)
                + 16777216 * (bytes[27] as int) == fmt.sample_rate as int
            &&& (bytes[34] as int) + 256 * (bytes[35] as int) == 16
        }),
{
    let bytes = spec_wav_encode(fmt, samples);
    let ch = fmt.channels as int;
    assert(bytes[22] == (ch % 256) as u8);
    assert(bytes[23] == ((ch / 256) % 256) as u8);
    assert(ch % 256 + 256 * (ch / 256) == ch) by {
        vstd::arithmetic::div_mod::lemma_fundamental_div_mod(ch, 256);
    }
    assert(ch / 256 < 256);
    let sr = fmt.sample_rate as int;
    assert(bytes[24] == (sr % 256) as u8);
    assert(bytes[25] == ((sr / 256) % 256) as u8);
    assert(bytes[26] == ((sr / 65536) % 256) as u8);
    assert(bytes[27] == ((sr / 16777216) % 256) as u8);
    assert(sr % 256 + 256 * (sr / 256) == sr) by {
        vstd::arithmetic::div_mod::lemma_fundamental_div_mod(sr, 256);
    }
    assert((sr / 256) % 256 + 256 * (sr / 65536) == sr / 256) by {
        vstd::arithmetic::div_mod::lemma_fundamental_div_mod(sr / 256, 256);
        assert(sr / 256 / 256 == sr / 65536) by {
            vstd::arithmetic::div_mod::lemma_div_denominator(sr, 256, 256);
        }
    }
    assert((sr / 65536) % 256 + 256 * (sr / 16777216) == sr / 65536) by {
        vstd::arithmetic::div_mod::lemma_fundamental_div_mod(sr / 65536, 256);
        assert(sr / 65536 / 256 == sr / 16777216) by {
            vstd::arithmetic::div_mod::lemma_div_denominator(sr, 65536, 256);
        }
    }
    assert(sr / 16777216 < 256);
}

/// A session that sent `samples` through the hand-off channel yields an
/// artifact holding exactly those samples: the byte length accounts for
/// every sample and nothing else, and reading the data section back gives
/// each sample at its send position.
pub proof fn lemma_artifact_holds_exactly_the_samples(fmt: WavFormat, samples: Seq<i16>)
    ensures
        spec_wav_encode(fmt, samples).len() == 44 + 2 * samples.len(),
        wav_sample_count(spec_wav_encode(fmt, samples)) == samples.len(),
        forall|i: int| 0 <= i < samples.len()
            ==> wav_sample_at(spec_wav_encode(fmt, samples), i) == samples[i] as int,
    decreases samples.len(),
{
    let bytes = spec_wav_encode(fmt, samples);
    lemma_sample_data_len(samples);
    assert(wav_header(fmt, samples.len() as int).len() == 44);
    assert(bytes.len() == 44 + 2 * samples.len());
    assert forall|i: int| 0 <= i < samples.len()
        implies wav_sample_at(bytes, i) == samples[i] as int by {
        lemma_sample_data_index(samples, i);
        assert(bytes[44 + 2 * i] == sample_data(samples)[2 * i]);
        assert(bytes[44 + 2 * i + 1] == sample_data(samples)[2 * i + 1]);
        let w = sample_word(samples[i]);
        assert(0 <= w < 65536);
        assert(w % 256 + 256 * (w / 256) == w) by {
            vstd::arithmetic::div_mod::lemma_fundamental_div_mod(w, 256);
        }
        if samples[i] >= 0 {
            assert(w < 32768);
        } else {
            assert(w >= 32768);
        }
    }
}

} // verus!
