//! The clipping sound's WAV container: 16-bit mono PCM.
use vstd::bytes::{spec_u16_to_le_bytes, spec_u32_to_le_bytes, u16_to_le_bytes, u32_to_le_bytes};
use vstd::prelude::*;

verus! {

/// The RIFF header of a 16-bit mono PCM WAV file with `data_size` bytes of samples.
pub open spec fn wav_header(sample_rate: u32, data_size: u32) -> Seq<u8> {
    seq![0x52u8, 0x49, 0x46, 0x46] + spec_u32_to_le_bytes((36 + data_size) as u32) + seq![
        0x57u8,
        0x41,
        0x56,
        0x45,
        0x66,
        0x6d,
        0x74,
        0x20,
    ] + spec_u32_to_le_bytes(16) + spec_u16_to_le_bytes(1) + spec_u16_to_le_bytes(1)
        + spec_u32_to_le_bytes(sample_rate) + spec_u32_to_le_bytes((sample_rate * 2) as u32)
        + spec_u16_to_le_bytes(2) + spec_u16_to_le_bytes(16) + seq![0x64u8, 0x61, 0x74, 0x61]
        + spec_u32_to_le_bytes(data_size)
}

/// The samples, each as two little-endian bytes.
pub open spec fn pcm_bytes(samples: Seq<i16>) -> Seq<u8>
    decreases samples.len(),
{
    if samples.len() == 0 {
        Seq::empty()
    } else {
        pcm_bytes(samples.drop_last()) + spec_u16_to_le_bytes(samples.last() as u16)
    }
}

fn append(v: &mut Vec<u8>, w: &Vec<u8>)
    ensures
        final(v)@ == old(v)@ + w@,
{
    let ghost v0 = v@;
    let mut i: usize = 0;
    while i < w.len()
        invariant
            i <= w.len(),
            v@ == v0 + w@.take(i as int),
        decreases w.len() - i,
    {
        v.push(w[i]);
        assert(w@.take(i + 1) =~= w@.take(i as int).push(w@[i as int]));
        i = i + 1;
    }
    assert(w@.take(w.len() as int) =~= w@);
}

/// A 16-bit mono PCM WAV file holding `samples` at `sample_rate` samples per second.
/// Sizes that do not fit the format's 32-bit fields are not supported.
pub fn wav_pcm16_mono(sample_rate: u32, samples: &[i16]) -> (r: Vec<u8>)
    requires
        samples@.len() * 2 + 36 <= u32::MAX,
        sample_rate * 2 <= u32::MAX,
    ensures
        r@ == wav_header(sample_rate, (samples@.len() * 2) as u32) + pcm_bytes(samples@),
{
    let data_size: u32 = (samples.len() * 2) as u32;
    let mut wav: Vec<u8> = Vec::new();
    wav.push(0x52);
    wav.push(0x49);
    wav.push(0x46);
    wav.push(0x46);
    append(&mut wav, &u32_to_le_bytes(36 + data_size));
    wav.push(0x57);
    wav.push(0x41);
    wav.push(0x56);
    wav.push(0x45);
    wav.push(0x66);
    wav.push(0x6d);
    wav.push(0x74);
    wav.push(0x20);
    append(&mut wav, &u32_to_le_bytes(16));
    append(&mut wav, &u16_to_le_bytes(1));
    append(&mut wav, &u16_to_le_bytes(1));
    append(&mut wav, &u32_to_le_bytes(sample_rate));
    append(&mut wav, &u32_to_le_bytes(sample_rate * 2));
    append(&mut wav, &u16_to_le_bytes(2));
    append(&mut wav, &u16_to_le_bytes(16));
    wav.push(0x64);
    wav.push(0x61);
    wav.push(0x74);
    wav.push(0x61);
    append(&mut wav, &u32_to_le_bytes(data_size));
    let ghost header = wav@;
    assert(header =~= wav_header(sample_rate, data_size));
    let mut i: usize = 0;
    while i < samples.len()
        invariant
            i <= samples.len(),
            wav@ == header + pcm_bytes(samples@.take(i as int)),
        decreases samples.len() - i,
    {
        assert(samples@.take(i + 1).drop_last() =~= samples@.take(i as int));
        assert(samples@.take(i + 1).last() == samples@[i as int]);
        let b = u16_to_le_bytes(samples[i] as u16);
        append(&mut wav, &b);
        assert(wav@ =~= header + pcm_bytes(samples@.take(i + 1)));
        i = i + 1;
    }
    assert(samples@.take(samples.len() as int) =~= samples@);
    wav
}

} // verus!
