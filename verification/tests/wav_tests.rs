use dictator::wav::float_wav_bytes;

fn expected_wav(samples: &[f32]) -> Vec<u8> {
    let data_size = (samples.len() * 4) as u32;
    let mut v = Vec::new();
    v.extend_from_slice(b"RIFF");
    v.extend_from_slice(&(36 + data_size).to_le_bytes());
    v.extend_from_slice(b"WAVE");
    v.extend_from_slice(b"fmt ");
    v.extend_from_slice(&16u32.to_le_bytes());
    v.extend_from_slice(&3u16.to_le_bytes());
    v.extend_from_slice(&1u16.to_le_bytes());
    v.extend_from_slice(&16000u32.to_le_bytes());
    v.extend_from_slice(&64000u32.to_le_bytes());
    v.extend_from_slice(&4u16.to_le_bytes());
    v.extend_from_slice(&32u16.to_le_bytes());
    v.extend_from_slice(b"data");
    v.extend_from_slice(&data_size.to_le_bytes());
    for s in samples {
        v.extend_from_slice(&s.to_le_bytes());
    }
    v
}

#[test]
fn wav_empty_file_is_a_bare_header() {
    let bytes = float_wav_bytes(&[]);
    assert_eq!(bytes.len(), 44);
    assert_eq!(&bytes[0..4], b"RIFF");
    assert_eq!(&bytes[4..8], &[36, 0, 0, 0]);
    assert_eq!(&bytes[36..40], b"data");
    assert_eq!(bytes, expected_wav(&[]));
}

#[test]
fn wav_samples_follow_the_header_little_endian() {
    let samples = [0.0f32, 1.0, -0.5, 0.25];
    let bits: Vec<u32> = samples.iter().map(|s| s.to_bits()).collect();
    let bytes = float_wav_bytes(&bits);
    assert_eq!(bytes.len(), 44 + 16);
    assert_eq!(&bytes[48..52], &[0x00, 0x00, 0x80, 0x3F]);
    assert_eq!(bytes, expected_wav(&samples));
}
