use klyppd::wav::wav_pcm16_mono;

#[test]
fn wav_header_and_samples() {
    let w = wav_pcm16_mono(48_000, &[1, -1]);
    let mut want: Vec<u8> = Vec::new();
    want.extend_from_slice(b"RIFF");
    want.extend_from_slice(&40u32.to_le_bytes());
    want.extend_from_slice(b"WAVEfmt ");
    want.extend_from_slice(&16u32.to_le_bytes());
    want.extend_from_slice(&1u16.to_le_bytes());
    want.extend_from_slice(&1u16.to_le_bytes());
    want.extend_from_slice(&48_000u32.to_le_bytes());
    want.extend_from_slice(&96_000u32.to_le_bytes());
    want.extend_from_slice(&2u16.to_le_bytes());
    want.extend_from_slice(&16u16.to_le_bytes());
    want.extend_from_slice(b"data");
    want.extend_from_slice(&4u32.to_le_bytes());
    want.extend_from_slice(&[0x01, 0x00, 0xff, 0xff]);
    assert_eq!(w, want);
    assert_eq!(wav_pcm16_mono(8_000, &[]).len(), 44);
}
