use vox_lab::wav::{encode_wav, read_wav, wav_fmt_truncated, PcmAudio};

fn header(data_len: u32, rate: u32, bits: u16) -> Vec<u8> {
    let mut h = Vec::new();
    h.extend_from_slice(b"RIFF");
    h.extend_from_slice(&(36 + data_len).to_le_bytes());
    h.extend_from_slice(b"WAVE");
    h.extend_from_slice(b"fmt ");
    h.extend_from_slice(&16u32.to_le_bytes());
    h.extend_from_slice(&1u16.to_le_bytes());
    h.extend_from_slice(&1u16.to_le_bytes());
    h.extend_from_slice(&rate.to_le_bytes());
    h.extend_from_slice(&(rate * (bits as u32) / 8).to_le_bytes());
    h.extend_from_slice(&((bits / 8) as u16).to_le_bytes());
    h.extend_from_slice(&bits.to_le_bytes());
    h.extend_from_slice(b"data");
    h.extend_from_slice(&data_len.to_le_bytes());
    h
}

#[test]
fn wav_round_trip_gives_back_samples_and_rate() {
    let samples: Vec<i16> = vec![0, 1, -1, 32767, -32768, 1234, -4321];
    let bytes = encode_wav(&samples, 22050);
    let audio = read_wav(&bytes);
    assert_eq!(
        audio,
        PcmAudio {
            samples: samples.iter().map(|&s| s as i32).collect(),
            bits_per_sample: 16,
            sample_rate: 22050,
        }
    );
}

#[test]
fn wav_round_trip_of_empty_clip() {
    let bytes = encode_wav(&[], 48000);
    assert_eq!(bytes.len(), 44);
    let audio = read_wav(&bytes);
    assert_eq!(audio.samples, Vec::<i32>::new());
    assert_eq!(audio.sample_rate, 48000);
}

#[test]
fn wav_encoding_is_the_standard_16_bit_mono_header() {
    let bytes = encode_wav(&[1, -2], 16000);
    let mut expected = header(4, 16000, 16);
    expected.extend_from_slice(&[1, 0, 0xfe, 0xff]);
    assert_eq!(bytes, expected);
}

#[test]
fn wav_without_data_chunk_is_raw_16_bit_pcm() {
    let buf = [1u8, 0, 2, 0, 0xff, 0xff, 9];
    let audio = read_wav(&buf);
    assert_eq!(audio.samples, vec![1, 2, -1]);
    assert_eq!(audio.bits_per_sample, 16);
    assert_eq!(audio.sample_rate, 48000);
}

#[test]
fn wav_short_buffer_is_raw_pcm() {
    let audio = read_wav(&[]);
    assert!(audio.samples.is_empty());
    assert_eq!(audio.sample_rate, 48000);
}

#[test]
fn wav_fmt_rate_kept_when_data_chunk_missing() {
    let mut buf = header(0, 8000, 16);
    buf.truncate(36);
    let audio = read_wav(&buf);
    assert_eq!(audio.sample_rate, 8000);
    assert_eq!(audio.samples.len(), 18);
}

#[test]
fn wav_reads_32_bit_pcm() {
    let mut buf = header(8, 44100, 32);
    buf.extend_from_slice(&(-2i32).to_le_bytes());
    buf.extend_from_slice(&i32::MAX.to_le_bytes());
    let audio = read_wav(&buf);
    assert_eq!(audio.bits_per_sample, 32);
    assert_eq!(audio.samples, vec![-2, i32::MAX]);
    assert_eq!(audio.sample_rate, 44100);
}

#[test]
fn wav_data_size_larger_than_buffer_reads_what_is_there() {
    let mut buf = header(1000, 24000, 16);
    buf.extend_from_slice(&[5, 0, 6, 0, 7]);
    let audio = read_wav(&buf);
    assert_eq!(audio.samples, vec![5, 6]);
}

#[test]
fn wav_skips_other_chunks_with_padding() {
    let mut buf = Vec::new();
    buf.extend_from_slice(b"RIFF\0\0\0\0WAVE");
    buf.extend_from_slice(b"LIST");
    buf.extend_from_slice(&3u32.to_le_bytes());
    buf.extend_from_slice(&[1, 2, 3, 0]);
    buf.extend_from_slice(b"data");
    buf.extend_from_slice(&2u32.to_le_bytes());
    buf.extend_from_slice(&[0x10, 0x00]);
    let audio = read_wav(&buf);
    assert_eq!(audio.samples, vec![16]);
    assert_eq!(audio.sample_rate, 48000);
}

#[test]
fn wav_truncated_fmt_chunk_is_detected() {
    let mut buf = header(0, 8000, 16);
    buf.truncate(27);
    assert!(wav_fmt_truncated(&buf));
    let ok = encode_wav(&[3], 8000);
    assert!(!wav_fmt_truncated(&ok));
    assert!(!wav_fmt_truncated(&[1, 2, 3]));
}

#[test]
fn wav_encoded_length_is_header_plus_two_bytes_per_sample() {
    let samples: Vec<i16> = (0..100).map(|i| (i * 300 - 15000) as i16).collect();
    assert_eq!(encode_wav(&samples, 44100).len(), 44 + 200);
}

#[test]
fn wav_short_fmt_chunk_keeps_16_bit() {
    let mut buf = Vec::new();
    buf.extend_from_slice(b"RIFF\0\0\0\0WAVE");
    buf.extend_from_slice(b"fmt ");
    buf.extend_from_slice(&14u32.to_le_bytes());
    buf.extend_from_slice(&1u16.to_le_bytes());
    buf.extend_from_slice(&1u16.to_le_bytes());
    buf.extend_from_slice(&16000u32.to_le_bytes());
    buf.extend_from_slice(&32000u32.to_le_bytes());
    buf.extend_from_slice(&2u16.to_le_bytes());
    // the next chunk's id starts with the bytes 32, 0
    buf.extend_from_slice(&[32, 0, b'x', b'x']);
    buf.extend_from_slice(&0u32.to_le_bytes());
    buf.extend_from_slice(b"data");
    buf.extend_from_slice(&4u32.to_le_bytes());
    buf.extend_from_slice(&[1, 0, 2, 0]);
    let audio = read_wav(&buf);
    assert_eq!(audio.bits_per_sample, 16);
    assert_eq!(audio.samples, vec![1, 2]);
    assert_eq!(audio.sample_rate, 16000);
}
