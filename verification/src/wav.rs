//! Minimal RIFF/WAV reading and writing on bytes.
//!
//! Reading walks the RIFF chunk list from offset 12, takes the sample rate and
//! sample width from each `fmt ` chunk it passes, and decodes the first `data`
//! chunk as little-endian 16-bit or 32-bit PCM. Without a `data` chunk the whole
//! buffer is taken as raw 16-bit PCM. Writing produces a mono 16-bit PCM file.
use vstd::prelude::*;

verus! {

/// Sample rate assumed until a `fmt ` chunk says otherwise.
pub const DEFAULT_SAMPLE_RATE: u32 = 48000;

/// Offset of the first chunk header: after `RIFF`, the RIFF size and `WAVE`.
pub const FIRST_CHUNK_OFFSET: usize = 12;

/// Unsigned little-endian 16-bit value at `i`.
pub open spec fn u16_le(b: Seq<u8>, i: int) -> int {
    b[i] + 256 * b[i + 1]
}

/// Unsigned little-endian 32-bit value at `i`.
pub open spec fn u32_le(b: Seq<u8>, i: int) -> int {
    b[i] + 256 * b[i + 1] + 65536 * b[i + 2] + 16777216 * b[i + 3]
}

/// Two's-complement little-endian 16-bit value at `i`.
pub open spec fn i16_le(b: Seq<u8>, i: int) -> int {
    let u = u16_le(b, i);
    if u >= 32768 {
        u - 65536
    } else {
        u
    }
}

/// Two's-complement little-endian 32-bit value at `i`.
pub open spec fn i32_le(b: Seq<u8>, i: int) -> int {
    let u = u32_le(b, i);
    if u >= 2147483648 {
        u - 4294967296
    } else {
        u
    }
}

/// The chunk id `fmt `.
pub open spec fn fmt_id() -> Seq<u8> {
    seq![0x66u8, 0x6du8, 0x74u8, 0x20u8]
}

/// The chunk id `data`.
pub open spec fn data_id() -> Seq<u8> {
    seq![0x64u8, 0x61u8, 0x74u8, 0x61u8]
}

/// The four bytes at `i`.
pub open spec fn id_at(b: Seq<u8>, i: int) -> Seq<u8> {
    b.subrange(i, i + 4)
}

/// Bytes per sample for a width of `bits_per_sample`: 4 for 32-bit, else 2.
pub open spec fn sample_bytes(bits_per_sample: u16) -> int {
    if bits_per_sample == 32 {
        4
    } else {
        2
    }
}

/// `count` samples of `width` bytes each, from `start`.
pub open spec fn pcm_samples(b: Seq<u8>, start: int, count: nat, width: int) -> Seq<i32> {
    Seq::new(
        count,
        |k: int|
            if width == 4 {
                i32_le(b, start + 4 * k) as i32
            } else {
                i16_le(b, start + 2 * k) as i32
            },
    )
}

/// What a read returns: the samples as integers, their width and the sample rate.
pub struct DecodedWav {
    pub samples: Seq<i32>,
    pub bits_per_sample: u16,
    pub sample_rate: u32,
}

/// The whole buffer as raw 16-bit PCM.
pub open spec fn raw_pcm16(b: Seq<u8>, sample_rate: u32) -> DecodedWav {
    DecodedWav {
        samples: pcm_samples(b, 0, (b.len() / 2) as nat, 2),
        bits_per_sample: 16,
        sample_rate,
    }
}

/// Chunk size declared by the chunk header at `offset`.
pub open spec fn chunk_size(b: Seq<u8>, offset: int) -> int {
    u32_le(b, offset + 4)
}

/// Offset of the chunk after the one at `offset` (chunks are padded to even size).
pub open spec fn next_chunk(b: Seq<u8>, offset: int) -> int {
    offset + 8 + chunk_size(b, offset) + chunk_size(b, offset) % 2
}

/// Width announced by a `fmt ` chunk at `offset`: 32 when the chunk is
/// declared long enough to hold a bits-per-sample field (16 bytes), that field
/// lies within the buffer and says 32; else 16.
pub open spec fn fmt_bits(b: Seq<u8>, offset: int) -> u16 {
    if chunk_size(b, offset) >= 16 && offset + 24 <= b.len() && u16_le(b, offset + 22) == 32 {
        32
    } else {
        16
    }
}

/// Reading from the chunk at `offset` on, with the rate and width read so far.
/// `None` where a `fmt ` chunk header stands so close to the end that its sample
/// rate field is cut off.
pub open spec fn scan(b: Seq<u8>, offset: int, sample_rate: u32, bits: u16) -> Option<DecodedWav>
    decreases (if offset <= b.len() { b.len() - offset } else { 0 }),
{
    if offset < 0 || offset + 8 > b.len() {
        Some(raw_pcm16(b, sample_rate))
    } else if id_at(b, offset) == fmt_id() {
        if offset + 16 > b.len() {
            None
        } else {
            scan(b, next_chunk(b, offset), u32_le(b, offset + 12) as u32, fmt_bits(b, offset))
        }
    } else if id_at(b, offset) == data_id() {
        let start = offset + 8;
        let size = chunk_size(b, offset);
        let avail = b.len() - start;
        let width = sample_bytes(bits);
        let count = (if size < avail {
            size
        } else {
            avail
        }) / width;
        Some(DecodedWav { samples: pcm_samples(b, start, count as nat, width), bits_per_sample: bits, sample_rate })
    } else {
        scan(b, next_chunk(b, offset), sample_rate, bits)
    }
}

/// What reading `b` gives, `None` where the read cannot be made.
pub open spec fn decode_wav(b: Seq<u8>) -> Option<DecodedWav> {
    scan(b, FIRST_CHUNK_OFFSET as int, DEFAULT_SAMPLE_RATE, 16)
}

/// Decoded PCM audio: integer samples, their width in bits (16 or 32) and the
/// sample rate in Hz. A sample of width `w` stands for `sample / 2^(w-1)`.
#[derive(Debug, Clone, PartialEq, Eq)]
pub struct PcmAudio {
    pub samples: Vec<i32>,
    pub bits_per_sample: u16,
    pub sample_rate: u32,
}

impl View for PcmAudio {
    type V = DecodedWav;

    open spec fn view(&self) -> DecodedWav {
        DecodedWav {
            samples: self.samples@,
            bits_per_sample: self.bits_per_sample,
            sample_rate: self.sample_rate,
        }
    }
}

fn read_u16_le(b: &[u8], i: usize) -> (r: u32)
    requires
        i + 2 <= b@.len(),
    ensures
        r == u16_le(b@, i as int),
{
    b[i] as u32 + 256 * (b[i + 1] as u32)
}

fn read_u32_le(b: &[u8], i: usize) -> (r: u32)
    requires
        i + 4 <= b@.len(),
    ensures
        r == u32_le(b@, i as int),
{
    b[i] as u32 + 256 * (b[i + 1] as u32) + 65536 * (b[i + 2] as u32) + 16777216 * (b[i + 3] as u32)
}

fn read_i16_le(b: &[u8], i: usize) -> (r: i32)
    requires
        i + 2 <= b@.len(),
    ensures
        r == i16_le(b@, i as int),
{
    let u = read_u16_le(b, i);
    if u >= 32768 {
        u as i32 - 65536
    } else {
        u as i32
    }
}

fn read_i32_le(b: &[u8], i: usize) -> (r: i32)
    requires
        i + 4 <= b@.len(),
    ensures
        r == i32_le(b@, i as int),
{
    let u = read_u32_le(b, i);
    if u >= 2147483648 {
        (u as i64 - 4294967296) as i32
    } else {
        u as i32
    }
}

fn id_is(b: &[u8], i: usize, id: [u8; 4]) -> (r: bool)
    requires
        i + 4 <= b@.len(),
    ensures
        r == (id_at(b@, i as int) == id@),
{
    let r = b[i] == id[0] && b[i + 1] == id[1] && b[i + 2] == id[2] && b[i + 3] == id[3];
    assert(r ==> id_at(b@, i as int) =~= id@);
    assert(id_at(b@, i as int) == id@ ==> id_at(b@, i as int)[0] == id@[0] && id_at(b@, i as int)[1]
        == id@[1] && id_at(b@, i as int)[2] == id@[2] && id_at(b@, i as int)[3] == id@[3]);
    r
}

/// Decodes `count` samples of `width` bytes from `start`.
fn decode_samples(b: &[u8], start: usize, count: usize, width: usize) -> (r: Vec<i32>)
    requires
        width == 2 || width == 4,
        start + count * width <= b@.len(),
    ensures
        r@ == pcm_samples(b@, start as int, count as nat, width as int),
{
    let _len = b.len();
    let mut out: Vec<i32> = Vec::with_capacity(count);
    let mut k: usize = 0;
    while k < count
        invariant
            _len == b@.len(),
            width == 2 || width == 4,
            start + count * width <= b@.len(),
            k <= count,
            out@ =~= pcm_samples(b@, start as int, k as nat, width as int),
        decreases count - k,
    {
        assert(start + k * width + width <= start + count * width) by (nonlinear_arith)
            requires
                k < count,
                width > 0,
        ;
        let v = if width == 4 {
            assert(4 * k == k * width) by (nonlinear_arith)
                requires
                    width == 4,
            ;
            read_i32_le(b, start + 4 * k)
        } else {
            assert(2 * k == k * width) by (nonlinear_arith)
                requires
                    width == 2,
            ;
            read_i16_le(b, start + 2 * k)
        };
        out.push(v);
        k = k + 1;
    }
    out
}

/// Offset of the chunk after the one at `offset`, when another chunk header can
/// still follow it; `None` when the walk ends there.
fn following_chunk(b: &[u8], offset: usize) -> (r: Option<usize>)
    requires
        offset + 8 <= b@.len(),
    ensures
        match r {
            Some(n) => n == next_chunk(b@, offset as int) && n + 8 <= b@.len(),
            None => next_chunk(b@, offset as int) + 8 > b@.len(),
        },
{
    let _len = b.len();
    let size = read_u32_le(b, offset + 4) as usize;
    let rest = b.len() - offset - 8;
    if size > rest {
        return None;
    }
    let end = offset + 8 + size;
    let pad = size % 2;
    if b.len() - end < pad + 8 {
        None
    } else {
        Some(end + pad)
    }
}

/// Tells whether [`read_wav`] cannot read `buf`: a `fmt ` chunk header stands
/// so close to the end that its sample rate field is cut off.
pub fn wav_fmt_truncated(buf: &[u8]) -> (r: bool)
    ensures
        r == (decode_wav(buf@) is None),
{
    let len = buf.len();
    let mut offset: usize = FIRST_CHUNK_OFFSET;
    let ghost mut rate: u32 = DEFAULT_SAMPLE_RATE;
    let ghost mut bits: u16 = 16;
    loop
        invariant
            len == buf@.len(),
            scan(buf@, offset as int, rate, bits) is None <==> decode_wav(buf@) is None,
        decreases len - offset,
    {
        if offset > len || len - offset < 8 {
            return false;
        }
        let ghost rate0 = rate;
        let ghost bits0 = bits;
        if id_is(buf, offset, [0x66u8, 0x6du8, 0x74u8, 0x20u8]) {
            if len - offset < 16 {
                return true;
            }
            proof {
                rate = u32_le(buf@, offset + 12) as u32;
                bits = fmt_bits(buf@, offset as int);
            }
        } else if id_is(buf, offset, [0x64u8, 0x61u8, 0x74u8, 0x61u8]) {
            return false;
        }
        assert(scan(buf@, offset as int, rate0, bits0) == scan(
            buf@,
            next_chunk(buf@, offset as int),
            rate,
            bits,
        ));
        match following_chunk(buf, offset) {
            Some(n) => {
                offset = n;
            },
            None => {
                assert(scan(buf@, next_chunk(buf@, offset as int), rate, bits) == Some(
                    raw_pcm16(buf@, rate),
                ));
                return false;
            },
        }
    }
}

/// Parses a RIFF/WAV buffer into integer PCM samples, their width and the
/// sample rate.
///
/// Chunks are walked from offset 12. Each `fmt ` chunk sets the sample rate
/// (and the width: 32-bit when it is declared at least 16 bytes long and its
/// bits-per-sample field says 32, else 16).
/// The first `data` chunk is decoded as little-endian PCM of that width, as
/// many whole samples as its declared size and the buffer both hold. Without a
/// `data` chunk the whole buffer is taken as raw 16-bit PCM. The rate is 48000
/// until a `fmt ` chunk gives one.
pub fn read_wav(buf: &[u8]) -> (r: PcmAudio)
    requires
        decode_wav(buf@) is Some,
    ensures
        r@ == decode_wav(buf@)->0,
{
    let len = buf.len();
    let mut sample_rate: u32 = DEFAULT_SAMPLE_RATE;
    let mut bits: u16 = 16;
    let mut offset: usize = FIRST_CHUNK_OFFSET;
    loop
        invariant
            len == buf@.len(),
            scan(buf@, offset as int, sample_rate, bits) == decode_wav(buf@),
            decode_wav(buf@) is Some,
        decreases len - offset,
    {
        if offset > len || len - offset < 8 {
            return raw_pcm16_audio(buf, sample_rate);
        }
        let ghost rate0 = sample_rate;
        let ghost bits0 = bits;
        if id_is(buf, offset, [0x66u8, 0x6du8, 0x74u8, 0x20u8]) {
            sample_rate = read_u32_le(buf, offset + 12);
            bits = if read_u32_le(buf, offset + 4) >= 16 && len - offset >= 24 && read_u16_le(
                buf,
                offset + 22,
            ) == 32 {
                32
            } else {
                16
            };
        } else if id_is(buf, offset, [0x64u8, 0x61u8, 0x74u8, 0x61u8]) {
            let start = offset + 8;
            let size = read_u32_le(buf, offset + 4) as usize;
            let avail = len - start;
            let width: usize = if bits == 32 {
                4
            } else {
                2
            };
            let bytes = if size < avail {
                size
            } else {
                avail
            };
            let count = bytes / width;
            assert(count * width <= bytes) by (nonlinear_arith)
                requires
                    count == bytes / width,
                    width > 0,
            ;
            let samples = decode_samples(buf, start, count, width);
            return PcmAudio { samples, bits_per_sample: bits, sample_rate };
        }
        assert(scan(buf@, offset as int, rate0, bits0) == scan(
            buf@,
            next_chunk(buf@, offset as int),
            sample_rate,
            bits,
        ));
        match following_chunk(buf, offset) {
            Some(n) => {
                offset = n;
            },
            None => {
                assert(scan(buf@, next_chunk(buf@, offset as int), sample_rate, bits) == Some(
                    raw_pcm16(buf@, sample_rate),
                ));
                return raw_pcm16_audio(buf, sample_rate);
            },
        }
    }
}

/// The whole buffer as raw 16-bit PCM at `sample_rate`.
fn raw_pcm16_audio(buf: &[u8], sample_rate: u32) -> (r: PcmAudio)
    ensures
        r@ == raw_pcm16(buf@, sample_rate),
{
    let count = buf.len() / 2;
    let samples = decode_samples(buf, 0, count, 2);
    PcmAudio { samples, bits_per_sample: 16, sample_rate }
}


/// The chunk id `RIFF`.
pub open spec fn riff_id() -> Seq<u8> {
    seq![0x52u8, 0x49u8, 0x46u8, 0x46u8]
}

/// The form type `WAVE`.
pub open spec fn wave_id() -> Seq<u8> {
    seq![0x57u8, 0x41u8, 0x56u8, 0x45u8]
}

/// `v` as two little-endian bytes (taken modulo 2^16).
pub open spec fn u16_bytes(v: int) -> Seq<u8> {
    seq![(v % 256) as u8, ((v / 256) % 256) as u8]
}

/// `v` as four little-endian bytes (taken modulo 2^32).
pub open spec fn u32_bytes(v: int) -> Seq<u8> {
    seq![
        (v % 256) as u8,
        ((v / 256) % 256) as u8,
        ((v / 65536) % 256) as u8,
        ((v / 16777216) % 256) as u8,
    ]
}

/// The two's-complement image of a 16-bit sample as an unsigned value.
pub open spec fn pcm16_unsigned(s: i16) -> int {
    if s < 0 {
        s + 65536
    } else {
        s as int
    }
}

/// 16-bit samples as little-endian bytes, two per sample.
pub open spec fn pcm16_bytes(samples: Seq<i16>) -> Seq<u8>
    decreases samples.len(),
{
    if samples.len() == 0 {
        Seq::empty()
    } else {
        pcm16_bytes(samples.drop_last()) + u16_bytes(pcm16_unsigned(samples.last()))
    }
}

/// The data size field written for `n` samples: `2n` kept to its low 32 bits.
pub open spec fn data_size_field(n: nat) -> int {
    (2 * n) as int % 4294967296
}

/// The 44-byte header of a mono 16-bit PCM file with `n` samples.
pub open spec fn wav_header(n: nat, sample_rate: u32) -> Seq<u8> {
    riff_id() + u32_bytes(36 + data_size_field(n)) + wave_id() + fmt_id() + u32_bytes(16) + u16_bytes(1)
        + u16_bytes(1) + u32_bytes(sample_rate as int) + u32_bytes(2 * sample_rate) + u16_bytes(2)
        + u16_bytes(16) + data_id() + u32_bytes(data_size_field(n))
}

/// The bytes of a mono 16-bit PCM WAV file holding `samples` at `sample_rate`.
pub open spec fn encode_wav_spec(samples: Seq<i16>, sample_rate: u32) -> Seq<u8> {
    wav_header(samples.len(), sample_rate) + pcm16_bytes(samples)
}

/// The inputs on which writing a WAV file succeeds: the RIFF size, the byte rate
/// and the file's length all fit.
pub open spec fn encodable(n: nat, sample_rate: u32) -> bool {
    &&& 36 + data_size_field(n) <= u32::MAX
    &&& 2 * sample_rate <= u32::MAX
    &&& 44 + 2 * n <= usize::MAX
}

fn push_u16_le(out: &mut Vec<u8>, v: u32)
    requires
        v < 65536,
    ensures
        final(out)@ == old(out)@ + u16_bytes(v as int),
{
    out.push((v % 256) as u8);
    out.push((v / 256) as u8);
    assert(final(out)@ =~= old(out)@ + u16_bytes(v as int));
}

fn push_u32_le(out: &mut Vec<u8>, v: u32)
    ensures
        final(out)@ == old(out)@ + u32_bytes(v as int),
{
    out.push((v % 256) as u8);
    out.push(((v / 256) % 256) as u8);
    out.push(((v / 65536) % 256) as u8);
    out.push((v / 16777216) as u8);
    assert(final(out)@ =~= old(out)@ + u32_bytes(v as int));
}

fn push_id(out: &mut Vec<u8>, id: [u8; 4])
    ensures
        final(out)@ == old(out)@ + id@,
{
    out.push(id[0]);
    out.push(id[1]);
    out.push(id[2]);
    out.push(id[3]);
    assert(final(out)@ =~= old(out)@ + id@);
}

/// Encodes mono 16-bit PCM samples as a WAV file: a 44-byte header (`RIFF`,
/// `WAVE`, a 16-byte `fmt ` chunk for 1-channel PCM at `sample_rate`, a `data`
/// chunk of `2 * samples.len()` bytes, both sizes kept to their low 32 bits)
/// followed by the samples in little-endian order.
pub fn encode_wav(samples: &[i16], sample_rate: u32) -> (r: Vec<u8>)
    requires
        encodable(samples@.len(), sample_rate),
    ensures
        r@ == encode_wav_spec(samples@, sample_rate),
        r@.len() == 44 + 2 * samples@.len(),
{
    let n = samples.len();
    let data_size: u32 = ((n as u64) * 2 % 4294967296) as u32;
    let mut out: Vec<u8> = Vec::with_capacity(44 + 2 * n);
    push_id(&mut out, [0x52u8, 0x49u8, 0x46u8, 0x46u8]);
    push_u32_le(&mut out, 36 + data_size);
    push_id(&mut out, [0x57u8, 0x41u8, 0x56u8, 0x45u8]);
    push_id(&mut out, [0x66u8, 0x6du8, 0x74u8, 0x20u8]);
    push_u32_le(&mut out, 16);
    push_u16_le(&mut out, 1);
    push_u16_le(&mut out, 1);
    push_u32_le(&mut out, sample_rate);
    push_u32_le(&mut out, sample_rate * 2);
    push_u16_le(&mut out, 2);
    push_u16_le(&mut out, 16);
    push_id(&mut out, [0x64u8, 0x61u8, 0x74u8, 0x61u8]);
    push_u32_le(&mut out, data_size);
    let ghost header = out@;
    assert(header =~= wav_header(n as nat, sample_rate));
    let mut i: usize = 0;
    while i < n
        invariant
            n == samples@.len(),
            i <= n,
            header == wav_header(n as nat, sample_rate),
            out@ == header + pcm16_bytes(samples@.take(i as int)),
        decreases n - i,
    {
        let s = samples[i];
        let u: u32 = if s < 0 {
            (s as i32 + 65536) as u32
        } else {
            s as u32
        };
        push_u16_le(&mut out, u);
        assert(samples@.take(i + 1).drop_last() =~= samples@.take(i as int));
        assert(out@ =~= header + pcm16_bytes(samples@.take(i + 1)));
        i = i + 1;
    }
    assert(samples@.take(n as int) =~= samples@);
    proof {
        lemma_pcm16_bytes(samples@);
    }
    out
}

proof fn lemma_u16_bytes_value(v: int)
    requires
        0 <= v < 65536,
    ensures
        u16_le(u16_bytes(v), 0) == v,
{
}

proof fn lemma_u32_bytes_value(v: int)
    requires
        0 <= v < 4294967296,
    ensures
        u32_le(u32_bytes(v), 0) == v,
{
}

proof fn lemma_pcm16_bytes(samples: Seq<i16>)
    ensures
        pcm16_bytes(samples).len() == 2 * samples.len(),
        forall|k: int|
            0 <= k < samples.len() ==> #[trigger] i16_le(pcm16_bytes(samples), 2 * k)
                == samples[k] as int,
    decreases samples.len(),
{
    if samples.len() > 0 {
        let init = samples.drop_last();
        lemma_pcm16_bytes(init);
        let b = pcm16_bytes(samples);
        assert forall|k: int| 0 <= k < samples.len() implies #[trigger] i16_le(b, 2 * k)
            == samples[k] as int by {
            if k < init.len() {
                assert(b[2 * k] == pcm16_bytes(init)[2 * k]);
                assert(b[2 * k + 1] == pcm16_bytes(init)[2 * k + 1]);
                assert(i16_le(pcm16_bytes(init), 2 * k) == init[k] as int);
            } else {
                lemma_u16_bytes_value(pcm16_unsigned(samples.last()));
            }
        }
    }
}

/// The header fields of an encoded file: a `fmt ` chunk of 16 bytes at 12
/// giving the rate and a width of 16 bits, then a `data` chunk at 36 whose
/// size is twice the number of samples.
proof fn lemma_wav_header_fields(samples: Seq<i16>, sample_rate: u32)
    requires
        encodable(samples.len(), sample_rate),
        36 + 2 * samples.len() <= u32::MAX,
    ensures
        ({
            let b = encode_wav_spec(samples, sample_rate);
            &&& b.len() == 44 + 2 * samples.len()
            &&& id_at(b, 12) == fmt_id()
            &&& chunk_size(b, 12) == 16
            &&& u32_le(b, 24) == sample_rate
            &&& fmt_bits(b, 12) == 16
            &&& next_chunk(b, 12) == 36
            &&& id_at(b, 36) == data_id()
            &&& chunk_size(b, 36) == 2 * samples.len()
        }),
{
    let n = samples.len();
    let b = encode_wav_spec(samples, sample_rate);
    let h = wav_header(n, sample_rate);
    lemma_pcm16_bytes(samples);
    assert(h.len() == 44);
    assert(data_size_field(n) == 2 * n);
    lemma_u32_bytes_value(16);
    lemma_u32_bytes_value(sample_rate as int);
    lemma_u32_bytes_value((2 * n) as int);
    lemma_u16_bytes_value(16);
    assert(id_at(b, 12) =~= fmt_id());
    assert(u32_le(b, 16) == u32_le(u32_bytes(16), 0));
    assert(u32_le(b, 24) == u32_le(u32_bytes(sample_rate as int), 0));
    assert(u16_le(b, 34) == u16_le(u16_bytes(16), 0));
    assert(id_at(b, 36) =~= data_id());
    assert(u32_le(b, 40) == u32_le(u32_bytes((2 * n) as int), 0));
}

/// The data chunk of an encoded file holds the samples.
proof fn lemma_wav_samples(samples: Seq<i16>, sample_rate: u32)
    ensures
        pcm_samples(encode_wav_spec(samples, sample_rate), 44, samples.len(), 2)
            == samples.map_values(|s: i16| s as i32),
{
    let n = samples.len();
    let b = encode_wav_spec(samples, sample_rate);
    let d = pcm16_bytes(samples);
    lemma_pcm16_bytes(samples);
    assert(wav_header(n, sample_rate).len() == 44);
    let got = pcm_samples(b, 44, n, 2);
    assert forall|k: int| 0 <= k < n implies got[k] == samples.map_values(|s: i16| s as i32)[k] by {
        assert(b[44 + 2 * k] == d[2 * k]);
        assert(b[44 + 2 * k + 1] == d[2 * k + 1]);
        assert(i16_le(d, 2 * k) == samples[k] as int);
    }
    assert(got =~= samples.map_values(|s: i16| s as i32));
}

/// A buffer with a 16-bit `fmt ` chunk at 12 and a `data` chunk of `2n` bytes
/// at 36 that fills the rest decodes to the `n` samples of that chunk.
proof fn lemma_scan_fmt_then_data(b: Seq<u8>, n: nat, sample_rate: u32)
    requires
        b.len() == 44 + 2 * n,
        id_at(b, 12) == fmt_id(),
        chunk_size(b, 12) == 16,
        u32_le(b, 24) == sample_rate,
        fmt_bits(b, 12) == 16,
        next_chunk(b, 12) == 36,
        id_at(b, 36) == data_id(),
        chunk_size(b, 36) == 2 * n,
    ensures
        decode_wav(b) == Some(
            DecodedWav { samples: pcm_samples(b, 44, n, 2), bits_per_sample: 16, sample_rate },
        ),
{
    assert(scan(b, 36, sample_rate, 16) == Some(
        DecodedWav { samples: pcm_samples(b, 44, n, 2), bits_per_sample: 16, sample_rate },
    ));
}

/// Reading a written file gives back the samples and the sample rate: decoding
/// the bytes of a mono 16-bit WAV file made from `samples` at `sample_rate`
/// yields exactly those samples (as 16-bit PCM) and that rate, for every input
/// whose data size fits the 32-bit size fields.
pub proof fn lemma_wav_round_trip(samples: Seq<i16>, sample_rate: u32)
    requires
        encodable(samples.len(), sample_rate),
        36 + 2 * samples.len() <= u32::MAX,
    ensures
        decode_wav(encode_wav_spec(samples, sample_rate)) == Some(
            DecodedWav {
                samples: samples.map_values(|s: i16| s as i32),
                bits_per_sample: 16,
                sample_rate,
            },
        ),
{
    lemma_wav_header_fields(samples, sample_rate);
    lemma_wav_samples(samples, sample_rate);
    lemma_scan_fmt_then_data(encode_wav_spec(samples, sample_rate), samples.len(), sample_rate);
}

/// A file whose `fmt ` chunk at 12 is declared `fs >= 16` bytes long (of any
/// such size: the walk steps past it by its padded declared size) and is
/// followed by a `data` chunk whose declared size `ds` the buffer holds in full
/// decodes to exactly the `ds / width` samples stored in that chunk, at the
/// rate of the `fmt ` chunk. No byte after the declared end of the data, such
/// as a trailing metadata chunk, is read as a sample.
pub proof fn lemma_wav_decodes_declared_data(b: Seq<u8>)
    requires
        b.len() >= 28,
        id_at(b, 12) == fmt_id(),
        u32_le(b, 16) >= 16,
        20 + u32_le(b, 16) + u32_le(b, 16) % 2 + 8 <= b.len(),
        id_at(b, 20 + u32_le(b, 16) + u32_le(b, 16) % 2) == data_id(),
        28 + u32_le(b, 16) + u32_le(b, 16) % 2 + u32_le(b, 24 + u32_le(b, 16) + u32_le(b, 16) % 2)
            <= b.len(),
    ensures
        ({
            let fs = u32_le(b, 16);
            let o = 20 + fs + fs % 2;
            let ds = u32_le(b, o + 4);
            let width: int = if u16_le(b, 34) == 32 {
                4
            } else {
                2
            };
            &&& decode_wav(b) is Some
            &&& decode_wav(b)->0.sample_rate == u32_le(b, 24)
            &&& decode_wav(b)->0.bits_per_sample == 8 * width
            &&& decode_wav(b)->0.samples.len() == ds / width
            &&& forall|k: int|
                0 <= k < ds / width ==> #[trigger] decode_wav(b)->0.samples[k] as int == (if width
                    == 4 {
                    i32_le(b, o + 8 + 4 * k)
                } else {
                    i16_le(b, o + 8 + 2 * k)
                })
        }),
{
    let fs = u32_le(b, 16);
    let o = 20 + fs + fs % 2;
    let ds = u32_le(b, o + 4);
    let rate = u32_le(b, 24) as u32;
    let bits = fmt_bits(b, 12);
    assert(chunk_size(b, 12) == fs);
    assert(next_chunk(b, 12) == o);
    assert(chunk_size(b, o) == ds);
    assert(bits == 32 <==> u16_le(b, 34) == 32);
    assert(scan(b, 12, DEFAULT_SAMPLE_RATE, 16) == scan(b, o, rate, bits));
    let width = sample_bytes(bits);
    let d = DecodedWav { samples: pcm_samples(b, o + 8, (ds / width) as nat, width), bits_per_sample: bits, sample_rate: rate };
    assert(scan(b, o, rate, bits) == Some(d));
}

/// The header of an encoded file describes mono 16-bit PCM at the given rate:
/// format 1, one channel, the sample rate, a byte rate of twice the sample
/// rate, a block alignment of 2 bytes and 16 bits per sample, with RIFF and
/// data sizes of `36 + 2n` and `2n` (kept to 32 bits).
pub proof fn lemma_wav_header_describes_pcm16(samples: Seq<i16>, sample_rate: u32)
    requires
        encodable(samples.len(), sample_rate),
    ensures
        ({
            let b = encode_wav_spec(samples, sample_rate);
            let n = samples.len();
            &&& id_at(b, 0) == riff_id()
            &&& u32_le(b, 4) == 36 + (2 * n) % 4294967296
            &&& id_at(b, 8) == wave_id()
            &&& id_at(b, 12) == fmt_id()
            &&& u32_le(b, 16) == 16
            &&& u16_le(b, 20) == 1
            &&& u16_le(b, 22) == 1
            &&& u32_le(b, 24) == sample_rate
            &&& u32_le(b, 28) == 2 * sample_rate
            &&& u16_le(b, 32) == 2
            &&& u16_le(b, 34) == 16
            &&& id_at(b, 36) == data_id()
            &&& u32_le(b, 40) == (2 * n) % 4294967296
        }),
{
    let n = samples.len();
    let b = encode_wav_spec(samples, sample_rate);
    let h = wav_header(n, sample_rate);
    assert(h.len() == 44);
    lemma_u32_bytes_value(36 + data_size_field(n));
    lemma_u32_bytes_value(16);
    lemma_u32_bytes_value(sample_rate as int);
    lemma_u32_bytes_value(2 * sample_rate);
    lemma_u32_bytes_value(data_size_field(n));
    lemma_u16_bytes_value(1);
    lemma_u16_bytes_value(2);
    lemma_u16_bytes_value(16);
    assert(id_at(b, 0) =~= riff_id());
    assert(id_at(b, 8) =~= wave_id());
    assert(id_at(b, 12) =~= fmt_id());
    assert(id_at(b, 36) =~= data_id());
    assert(u32_le(b, 4) == u32_le(u32_bytes(36 + data_size_field(n)), 0));
    assert(u32_le(b, 16) == u32_le(u32_bytes(16), 0));
    assert(u16_le(b, 20) == u16_le(u16_bytes(1), 0));
    assert(u16_le(b, 22) == u16_le(u16_bytes(1), 0));
    assert(u32_le(b, 24) == u32_le(u32_bytes(sample_rate as int), 0));
    assert(u32_le(b, 28) == u32_le(u32_bytes(2 * sample_rate), 0));
    assert(u16_le(b, 32) == u16_le(u16_bytes(2), 0));
    assert(u16_le(b, 34) == u16_le(u16_bytes(16), 0));
    assert(u32_le(b, 40) == u32_le(u32_bytes(data_size_field(n)), 0));
}

} // verus!
