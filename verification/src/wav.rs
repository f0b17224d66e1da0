use vstd::prelude::*;

verus! {

/// The little-endian bytes of a 16-bit value.
pub open spec fn le16(v: int) -> Seq<u8> {
    seq![(v % 256) as u8, ((v / 256) % 256) as u8]
}

/// The little-endian bytes of a 32-bit value.
pub open spec fn le32(v: int) -> Seq<u8> {
    seq![
        (v % 256) as u8,
        ((v / 256) % 256) as u8,
        ((v / 65536) % 256) as u8,
        ((v / 16777216) % 256) as u8,
    ]
}

/// The value that four little-endian bytes stand for.
pub open spec fn le32_value(b: Seq<u8>) -> int {
    b[0] + 256 * b[1] + 65536 * b[2] + 16777216 * b[3]
}

/// The value that two little-endian bytes stand for, read as a signed
/// 16-bit integer.
pub open spec fn le_i16_value(lo: u8, hi: u8) -> int {
    let u = lo + 256 * hi;
    if u >= 32768 {
        u - 65536
    } else {
        u
    }
}

/// The two's complement bits of a 16-bit sample, as an unsigned value.
pub open spec fn i16_bits(v: i16) -> int {
    if v < 0 {
        v + 65536
    } else {
        v as int
    }
}

/// The length of the data chunk for `count` 16-bit samples, as the 32-bit
/// field that the header holds.
pub open spec fn data_len(count: nat) -> int {
    ((2 * count) % 0x1_0000_0000) as int
}

/// The 44-byte header of a mono, 16-bit PCM WAVE file holding `count`
/// samples at `rate` samples per second: the RIFF chunk and its size, the
/// `fmt ` chunk (PCM, one channel, the rate, the byte rate, two-byte frames,
/// 16 bits) and the head of the `data` chunk with its size.
#[verifier::opaque]
pub open spec fn wav_header_spec(count: nat, rate: u32) -> Seq<u8> {
    let size = le32(36 + data_len(count));
    let r = le32(rate as int);
    let br = le32(2 * rate);
    let d = le32(data_len(count));
    seq![
        0x52u8, 0x49, 0x46, 0x46, size[0], size[1], size[2], size[3],
        0x57, 0x41, 0x56, 0x45, 0x66, 0x6d, 0x74, 0x20,
        16, 0, 0, 0, 1, 0, 1, 0,
        r[0], r[1], r[2], r[3], br[0], br[1], br[2], br[3],
        2, 0, 16, 0, 0x64, 0x61, 0x74, 0x61,
        d[0], d[1], d[2], d[3],
    ]
}

/// The little-endian bytes of each sample, in order.
pub open spec fn pcm16_spec(samples: Seq<i16>) -> Seq<u8>
    decreases samples.len(),
{
    if samples.len() == 0 {
        Seq::empty()
    } else {
        pcm16_spec(samples.drop_last()) + le16(i16_bits(samples.last()))
    }
}

/// The samples that little-endian byte pairs stand for; a last odd byte is
/// left out, as `chunks_exact(2)` leaves it.
pub open spec fn pcm16_decode_spec(bytes: Seq<u8>) -> Seq<i16> {
    Seq::new(
        bytes.len() / 2,
        |i: int| le_i16_value(bytes[2 * i], bytes[2 * i + 1]) as i16,
    )
}

fn push_bytes(out: &mut Vec<u8>, bytes: &[u8])
    ensures
        final(out)@ == old(out)@ + bytes@,
{
    let mut i: usize = 0;
    while i < bytes.len()
        invariant
            i <= bytes@.len(),
            out@ == old(out)@ + bytes@.take(i as int),
        decreases bytes@.len() - i,
    {
        out.push(bytes[i]);
        i += 1;
        assert(bytes@.take(i as int) =~= bytes@.take(i - 1).push(bytes@[i - 1]));
    }
    assert(bytes@.take(bytes@.len() as int) =~= bytes@);
}

fn push_le16(out: &mut Vec<u8>, v: u32)
    requires
        v < 65536,
    ensures
        final(out)@ == old(out)@ + le16(v as int),
{
    out.push((v % 256) as u8);
    out.push((v / 256) as u8);
    assert(final(out)@ =~= old(out)@ + le16(v as int));
}

fn push_le32(out: &mut Vec<u8>, v: u32)
    ensures
        final(out)@ == old(out)@ + le32(v as int),
{
    out.push((v % 256) as u8);
    out.push(((v / 256) % 256) as u8);
    out.push(((v / 65536) % 256) as u8);
    out.push(((v / 16777216) % 256) as u8);
    assert(final(out)@ =~= old(out)@ + le32(v as int));
}

/// The header of a mono, 16-bit PCM WAVE file holding `count` samples at
/// `rate` samples per second.
pub fn wav_header(count: usize, rate: u32) -> (r: Vec<u8>)
    requires
        count <= usize::MAX / 2,
        2 * rate <= u32::MAX,
        36 + data_len(count as nat) <= u32::MAX,
    ensures
        r@ == wav_header_spec(count as nat, rate),
{
    let twice: u64 = (count as u64) * 2;
    let data: u32 = (twice % 0x1_0000_0000u64) as u32;
    let mut r: Vec<u8> = Vec::new();
    push_bytes(&mut r, &[0x52u8, 0x49, 0x46, 0x46]);
    push_le32(&mut r, 36 + data);
    push_bytes(&mut r, &[0x57u8, 0x41, 0x56, 0x45]);
    push_bytes(&mut r, &[0x66u8, 0x6d, 0x74, 0x20]);
    push_le32(&mut r, 16);
    push_le16(&mut r, 1);
    push_le16(&mut r, 1);
    push_le32(&mut r, rate);
    push_le32(&mut r, rate * 2);
    push_le16(&mut r, 2);
    push_le16(&mut r, 16);
    push_bytes(&mut r, &[0x64u8, 0x61, 0x74, 0x61]);
    push_le32(&mut r, data);
    assert(r@ =~= wav_header_spec(count as nat, rate)) by {
        reveal(wav_header_spec);
    }
    r
}

/// The little-endian bytes of 16-bit PCM samples, two per sample.
pub fn pcm16_le(samples: &[i16]) -> (r: Vec<u8>)
    ensures
        r@ == pcm16_spec(samples@),
{
    let mut out: Vec<u8> = Vec::new();
    let mut i: usize = 0;
    while i < samples.len()
        invariant
            i <= samples@.len(),
            out@ == pcm16_spec(samples@.take(i as int)),
        decreases samples@.len() - i,
    {
        let v = samples[i];
        let u: u32 = if v < 0 {
            (v as i32 + 65536) as u32
        } else {
            v as u32
        };
        push_le16(&mut out, u);
        assert(samples@.take(i + 1).drop_last() =~= samples@.take(i as int));
        i += 1;
    }
    assert(samples@.take(samples@.len() as int) =~= samples@);
    out
}

/// The 16-bit samples that little-endian byte pairs stand for, as
/// `chunks_exact(2)` and `i16::from_le_bytes` read them.
pub fn pcm16_from_le(bytes: &[u8]) -> (r: Vec<i16>)
    ensures
        r@ == pcm16_decode_spec(bytes@),
{
    let len = bytes.len();
    let n = len / 2;
    let mut out: Vec<i16> = Vec::new();
    let mut i: usize = 0;
    while i < n
        invariant
            i <= n,
            len == bytes@.len(),
            n == len / 2,
            2 * n <= len,
            out@.len() == i,
            forall|k: int| 0 <= k < i ==> out@[k] == le_i16_value(bytes@[2 * k], bytes@[2 * k + 1]) as i16,
        decreases n - i,
    {
        assert(2 * i + 1 < bytes@.len());
        let j: usize = i + i;
        let lo = bytes[j] as u32;
        let hi = bytes[j + 1] as u32;
        let u: u32 = lo + 256 * hi;
        let v: i16 = if u >= 32768 {
            (u as i32 - 65536) as i16
        } else {
            u as i16
        };
        out.push(v);
        i += 1;
    }
    assert(out@ =~= pcm16_decode_spec(bytes@));
    out
}

/// A whole mono, 16-bit PCM WAVE file: the header, then the samples.
pub fn wav_bytes(samples: &[i16], rate: u32) -> (r: Vec<u8>)
    requires
        samples@.len() <= usize::MAX / 2,
        2 * rate <= u32::MAX,
        36 + data_len(samples@.len()) <= u32::MAX,
    ensures
        r@ == wav_header_spec(samples@.len(), rate) + pcm16_spec(samples@),
{
    let mut r = wav_header(samples.len(), rate);
    let mut pcm = pcm16_le(samples);
    r.append(&mut pcm);
    r
}

proof fn lemma_le16_split(u: int)
    requires
        0 <= u < 65536,
    ensures
        (u % 256) + 256 * ((u / 256) % 256) == u,
        0 <= u % 256 < 256,
        0 <= (u / 256) % 256 < 256,
{
    assert((u / 256) < 256);
    assert(u == 256 * (u / 256) + u % 256) by (nonlinear_arith);
}

/// The encoding of `samples` is two bytes per sample, low byte first.
pub proof fn lemma_pcm16_bytes(samples: Seq<i16>)
    ensures
        pcm16_spec(samples).len() == 2 * samples.len(),
        forall|i: int|
            #![trigger samples[i]]
            0 <= i < samples.len() ==> pcm16_spec(samples)[2 * i] == (i16_bits(samples[i]) % 256) as u8
                && pcm16_spec(samples)[2 * i + 1] == ((i16_bits(samples[i]) / 256) % 256) as u8,
    decreases samples.len(),
{
    if samples.len() > 0 {
        let init = samples.drop_last();
        lemma_pcm16_bytes(init);
        assert forall|i: int|
            #![trigger samples[i]]
            0 <= i < samples.len() implies pcm16_spec(samples)[2 * i] == (i16_bits(samples[i]) % 256) as u8
                && pcm16_spec(samples)[2 * i + 1] == ((i16_bits(samples[i]) / 256) % 256) as u8 by {
            if i < samples.len() - 1 {
                assert(samples[i] == init[i]);
            }
        }
    }
}

/// Decoding what `pcm16_le` encoded gives back every sample: writing then
/// reading PCM loses nothing.
pub proof fn lemma_pcm16_roundtrip(samples: Seq<i16>)
    ensures
        pcm16_decode_spec(pcm16_spec(samples)) == samples,
{
    lemma_pcm16_bytes(samples);
    let bytes = pcm16_spec(samples);
    assert forall|i: int| 0 <= i < samples.len() implies #[trigger] pcm16_decode_spec(bytes)[i]
        == samples[i] by {
        let u = i16_bits(samples[i]);
        lemma_le16_split(u);
        assert(bytes[2 * i] == (u % 256) as u8);
        assert(bytes[2 * i + 1] == ((u / 256) % 256) as u8);
        assert(le_i16_value(bytes[2 * i], bytes[2 * i + 1]) == samples[i] as int);
    }
    assert(pcm16_decode_spec(bytes) =~= samples);
}

/// Reading back four little-endian bytes gives the value written.
pub proof fn lemma_le32_roundtrip(v: int)
    requires
        0 <= v < 0x1_0000_0000,
    ensures
        le32_value(le32(v)) == v,
{
    let b0 = v % 256;
    let b1 = (v / 256) % 256;
    let b2 = (v / 65536) % 256;
    let b3 = (v / 16777216) % 256;
    assert(v == b0 + 256 * b1 + 65536 * b2 + 16777216 * b3) by (nonlinear_arith)
        requires
            0 <= v < 0x1_0000_0000,
            b0 == v % 256,
            b1 == (v / 256) % 256,
            b2 == (v / 65536) % 256,
            b3 == (v / 16777216) % 256,
    ;
}

proof fn lemma_field_reads(b: Seq<u8>, v: int)
    requires
        0 <= v < 0x1_0000_0000,
        b == le32(v),
    ensures
        le32_value(b) == v,
{
    lemma_le32_roundtrip(v);
}

proof fn lemma_wav_header_layout(count: nat, rate: u32)
    ensures
        wav_header_spec(count, rate).len() == 44,
        wav_header_spec(count, rate).subrange(4, 8) == le32(36 + data_len(count)),
        wav_header_spec(count, rate).subrange(24, 28) == le32(rate as int),
        wav_header_spec(count, rate).subrange(28, 32) == le32(2 * rate),
        wav_header_spec(count, rate).subrange(40, 44) == le32(data_len(count)),
{
    reveal(wav_header_spec);
    let h = wav_header_spec(count, rate);
    assert(h.subrange(4, 8) =~= le32(36 + data_len(count)));
    assert(h.subrange(24, 28) =~= le32(rate as int));
    assert(h.subrange(28, 32) =~= le32(2 * rate));
    assert(h.subrange(40, 44) =~= le32(data_len(count)));
}

/// The header is 44 bytes; its size field counts the bytes after the first
/// eight, its rate field holds the rate, its byte-rate field two bytes per
/// sample at that rate, and its data field the two bytes per sample that
/// follow it, wherever the sample count fits the field.
#[verifier::spinoff_prover]
pub proof fn lemma_wav_header_fields(count: nat, rate: u32)
    requires
        2 * rate <= u32::MAX,
        36 + data_len(count) <= u32::MAX,
    ensures
        wav_header_spec(count, rate).len() == 44,
        le32_value(wav_header_spec(count, rate).subrange(4, 8)) == 36 + data_len(count),
        le32_value(wav_header_spec(count, rate).subrange(24, 28)) == rate,
        le32_value(wav_header_spec(count, rate).subrange(28, 32)) == 2 * rate,
        le32_value(wav_header_spec(count, rate).subrange(40, 44)) == data_len(count),
        2 * count < 0x1_0000_0000 ==> data_len(count) == 2 * count,
{
    assert(2 * count < 0x1_0000_0000 ==> data_len(count) == 2 * count) by {
        if 2 * count < 0x1_0000_0000 {
            vstd::arithmetic::div_mod::lemma_small_mod((2 * count) as nat, 0x1_0000_0000);
        }
    }
    lemma_wav_header_layout(count, rate);
    let h = wav_header_spec(count, rate);
    lemma_field_reads(h.subrange(4, 8), 36 + data_len(count));
    lemma_field_reads(h.subrange(24, 28), rate as int);
    lemma_field_reads(h.subrange(28, 32), 2 * rate);
    lemma_field_reads(h.subrange(40, 44), data_len(count));
}

} // verus!
