//! The WAV file sent to the transcription server: 16 kHz mono IEEE-float
//! PCM, each sample given by its 32-bit pattern.

use vstd::prelude::*;

verus! {

/// Samples per second.
pub const WAV_SAMPLE_RATE: u32 = 16000;

/// The little-endian bytes of `x`.
pub open spec fn le_u32(x: u32) -> Seq<u8> {
    seq![(x % 256) as u8, ((x / 256) % 256) as u8, ((x / 65536) % 256) as u8, (x / 16777216) as u8]
}

/// The little-endian bytes of `x`.
pub open spec fn le_u16(x: u16) -> Seq<u8> {
    seq![(x % 256) as u8, (x / 256) as u8]
}

/// The four ASCII bytes of a chunk tag.
pub open spec fn tag(a: u8, b: u8, c: u8, d: u8) -> Seq<u8> {
    seq![a, b, c, d]
}

/// The 44-byte header for `n` float samples: a RIFF/WAVE file with a
/// 16-byte `fmt ` chunk (format 3, IEEE float; one channel; 16000 Hz;
/// 64000 bytes per second; 4-byte frames of 32 bits) and a `data` chunk of
/// `4 n` bytes.
pub open spec fn float_wav_header(n: nat) -> Seq<u8> {
    let data = (4 * n) as u32;
    tag(0x52, 0x49, 0x46, 0x46) + le_u32((36 + 4 * n) as u32) + tag(0x57, 0x41, 0x56, 0x45) + tag(
        0x66,
        0x6d,
        0x74,
        0x20,
    ) + le_u32(16) + le_u16(3) + le_u16(1) + le_u32(16000) + le_u32(64000) + le_u16(4) + le_u16(
        32,
    ) + tag(0x64, 0x61, 0x74, 0x61) + le_u32(data)
}

/// The sample bytes: each pattern little-endian, in order.
pub open spec fn sample_bytes(bits: Seq<u32>) -> Seq<u8>
    decreases bits.len(),
{
    if bits.len() == 0 {
        seq![]
    } else {
        sample_bytes(bits.drop_last()) + le_u32(bits.last())
    }
}

/// The whole file.
pub open spec fn float_wav(bits: Seq<u32>) -> Seq<u8> {
    float_wav_header(bits.len()) + sample_bytes(bits)
}

fn push_le_u32(v: &mut Vec<u8>, x: u32)
    ensures
        final(v)@ == old(v)@ + le_u32(x),
{
    v.push((x % 256) as u8);
    v.push(((x / 256) % 256) as u8);
    v.push(((x / 65536) % 256) as u8);
    v.push((x / 16777216) as u8);
    assert(final(v)@ =~= old(v)@ + le_u32(x));
}

fn push_le_u16(v: &mut Vec<u8>, x: u16)
    ensures
        final(v)@ == old(v)@ + le_u16(x),
{
    v.push((x % 256) as u8);
    v.push((x / 256) as u8);
    assert(final(v)@ =~= old(v)@ + le_u16(x));
}

fn push_tag(v: &mut Vec<u8>, a: u8, b: u8, c: u8, d: u8)
    ensures
        final(v)@ == old(v)@ + tag(a, b, c, d),
{
    v.push(a);
    v.push(b);
    v.push(c);
    v.push(d);
    assert(final(v)@ =~= old(v)@ + tag(a, b, c, d));
}

/// The WAV file of the samples whose 32-bit float patterns are
/// `sample_bits`. Its sizes are 32-bit fields, so the data must stay under
/// 4 GiB.
pub fn float_wav_bytes(sample_bits: &[u32]) -> (r: Vec<u8>)
    requires
        36 + 4 * sample_bits@.len() <= u32::MAX,
    ensures
        r@ == float_wav(sample_bits@),
{
    let n = sample_bits.len();
    let data_size: u32 = (n * 4) as u32;
    let mut v: Vec<u8> = Vec::new();
    push_tag(&mut v, 0x52, 0x49, 0x46, 0x46);
    push_le_u32(&mut v, 36 + data_size);
    push_tag(&mut v, 0x57, 0x41, 0x56, 0x45);
    push_tag(&mut v, 0x66, 0x6d, 0x74, 0x20);
    push_le_u32(&mut v, 16);
    push_le_u16(&mut v, 3);
    push_le_u16(&mut v, 1);
    push_le_u32(&mut v, WAV_SAMPLE_RATE);
    push_le_u32(&mut v, WAV_SAMPLE_RATE * 4);
    push_le_u16(&mut v, 4);
    push_le_u16(&mut v, 32);
    push_tag(&mut v, 0x64, 0x61, 0x74, 0x61);
    push_le_u32(&mut v, data_size);
    assert(v@ =~= float_wav_header(n as nat));
    let ghost header = v@;
    let mut i: usize = 0;
    assert(sample_bits@.take(0) =~= Seq::<u32>::empty());
    while i < n
        invariant
            i <= n == sample_bits@.len(),
            v@ == header + sample_bytes(sample_bits@.take(i as int)),
        decreases n - i,
    {
        assert(sample_bits@.take(i + 1).drop_last() =~= sample_bits@.take(i as int));
        assert(sample_bits@.take(i + 1).last() == sample_bits@[i as int]);
        push_le_u32(&mut v, sample_bits[i]);
        assert(v@ =~= header + sample_bytes(sample_bits@.take(i + 1)));
        i = i + 1;
    }
    assert(sample_bits@.take(n as int) =~= sample_bits@);
    v
}

/// The file is the 44-byte header followed by four bytes per sample.
pub proof fn lemma_float_wav_len(bits: Seq<u32>)
    ensures
        float_wav(bits).len() == 44 + 4 * bits.len(),
    decreases bits.len(),
{
    if bits.len() > 0 {
        lemma_float_wav_len(bits.drop_last());
    }
}

} // verus!
