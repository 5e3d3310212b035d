use chunkstream::sample::decode_samples;
use chunkstream::segment::find_silence;

fn loud(n: usize) -> Vec<u32> {
    vec![0.5f32.to_bits(); n]
}

fn silent(n: usize) -> Vec<u32> {
    vec![0.0f32.to_bits(); n]
}

#[test]
fn no_cut_below_minimum_chunk() {
    let buf = silent(15999);
    assert_eq!(find_silence(&buf, 16000), None);
}

#[test]
fn silence_cut_is_exactly_minimum_chunk() {
    let buf = silent(16000);
    assert_eq!(find_silence(&buf, 16000), Some(16000));
    let longer = silent(40000);
    assert_eq!(find_silence(&longer, 16000), Some(16000));
}

#[test]
fn speech_is_cut_when_buffer_grows_long() {
    let buf = loud(48000);
    assert_eq!(find_silence(&buf, 16000), Some(48000));
    let shorter = loud(47999);
    assert_eq!(find_silence(&shorter, 16000), None);
}

#[test]
fn speech_with_silent_tail_cuts_at_minimum() {
    let mut buf = loud(20000);
    buf.extend(silent(2000));
    assert_eq!(find_silence(&buf, 16000), Some(16000));
}

#[test]
fn pivot_is_never_zero_and_never_exceeds_buffer() {
    for n in [1usize, 5, 10, 100] {
        let buf = silent(n);
        if let Some(p) = find_silence(&buf, 1) {
            assert!(p > 0);
            assert!(p <= buf.len());
        }
    }
    // At rate 1 the minimum chunk is one sample.
    assert_eq!(find_silence(&silent(1), 1), Some(1));
}

#[test]
fn segmenter_is_deterministic() {
    let buf = loud(50000);
    assert_eq!(find_silence(&buf, 16000), find_silence(&buf, 16000));
}

#[test]
fn decode_little_endian_f32_frames() {
    let mut bytes: Vec<u8> = Vec::new();
    for v in [1.0f32, -0.25, 0.0] {
        bytes.extend_from_slice(&v.to_le_bytes());
    }
    let samples = decode_samples(&bytes);
    assert_eq!(samples.len(), 3);
    assert_eq!(f32::from_bits(samples[0]), 1.0);
    assert_eq!(f32::from_bits(samples[1]), -0.25);
    assert_eq!(f32::from_bits(samples[2]), 0.0);
}

#[test]
fn decode_drops_trailing_partial_group() {
    let bytes = vec![0u8, 0, 128, 63, 7, 7];
    let samples = decode_samples(&bytes);
    assert_eq!(samples.len(), 1);
    assert_eq!(f32::from_bits(samples[0]), 1.0);
}
