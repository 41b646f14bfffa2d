//! Channel normalization, resampling, mixing and WAV round trips.

use netnote::pcm::{
    decimate_by_three, downmix_to_mono, interleave_stereo, mix_average, normalize_channels,
    resample_i16,
};
use netnote::wav::{decode_wav_bytes, encode_wav_bytes, mix_wav_bytes};

#[test]
fn test_normalize_channels_mono_to_stereo() {
    let mono = vec![100, 200, 300];
    let stereo = normalize_channels(&mono, 1, 2);
    assert_eq!(stereo, vec![100, 100, 200, 200, 300, 300]);
}

#[test]
fn test_normalize_channels_stereo_to_mono() {
    let stereo = vec![100, 200, 300, 400];
    let mono = normalize_channels(&stereo, 2, 1);
    assert_eq!(mono, vec![150, 350]);
}

#[test]
fn normalize_same_channel_count_is_identity() {
    let s = vec![1, -2, 3];
    assert_eq!(normalize_channels(&s, 2, 2), vec![1, -2, 3]);
}

#[test]
fn normalize_stereo_to_mono_keeps_odd_tail() {
    let stereo = vec![10, 20, 30];
    assert_eq!(normalize_channels(&stereo, 2, 1), vec![15, 30]);
}

#[test]
fn downmix_averages_frames() {
    let samples: Vec<i16> = vec![100, 200, 300, 500, 7];
    assert_eq!(downmix_to_mono(&samples, 2), vec![150, 400, 7]);
}

#[test]
fn resample_same_rate_is_identity() {
    let samples: Vec<i16> = vec![5, 6, 7];
    assert_eq!(resample_i16(&samples, 16000, 16000), vec![5, 6, 7]);
}

#[test]
fn resample_halves_length_on_downsample() {
    let samples: Vec<i16> = vec![0, 1000, 2000, 3000];
    let out = resample_i16(&samples, 32000, 16000);
    assert_eq!(out.len(), 2);
    assert_eq!(out, vec![0, 2000]);
}

#[test]
fn resample_interpolates_on_upsample() {
    let samples: Vec<i16> = vec![0, 100];
    let out = resample_i16(&samples, 8000, 16000);
    // length 2 * 16000 / 8000 = 4; positions 0, 1/2, 1, 3/2
    assert_eq!(out, vec![0, 50, 100, 100]);
}

#[test]
fn mix_output_length_is_longer_input_and_tail_is_half() {
    let a: Vec<i16> = vec![100, 100, 100, 100, 100];
    let b: Vec<i16> = vec![50, 50];
    let out = mix_average(&a, &b);
    assert_eq!(out.len(), 5);
    assert_eq!(out, vec![75, 75, 50, 50, 50]);
}

#[test]
fn decimate_takes_every_third() {
    let s: Vec<i16> = vec![1, 2, 3, 4, 5, 6, 7];
    assert_eq!(decimate_by_three(&s), vec![1, 4, 7]);
}

#[test]
fn interleave_alternates_channels() {
    let l: Vec<i16> = vec![1, 3, 5];
    let r: Vec<i16> = vec![2, 4, 6];
    assert_eq!(interleave_stereo(&l, &r), vec![1, 2, 3, 4, 5, 6]);
}

#[test]
fn wav_round_trip_keeps_format_and_samples() {
    let samples: Vec<i16> = vec![0, 1000, -1000, 32767, -32768];
    let bytes = encode_wav_bytes(1, 16000, &samples).unwrap();
    let (info, decoded) = decode_wav_bytes(&bytes).unwrap();
    assert_eq!(info.channels, 1);
    assert_eq!(info.sample_rate, 16000);
    assert_eq!(decoded, samples);
}

#[test]
fn decode_rejects_garbage() {
    let garbage = vec![1u8, 2, 3, 4, 5];
    assert!(decode_wav_bytes(&garbage).is_err());
}

#[test]
fn mix_wav_bytes_pads_shorter_input_with_silence() {
    let a = encode_wav_bytes(1, 16000, &vec![100i16, 100, 100, 100]).unwrap();
    let b = encode_wav_bytes(1, 16000, &vec![50i16, 50]).unwrap();
    let mixed = mix_wav_bytes(&a, &b).unwrap();
    let (info, samples) = decode_wav_bytes(&mixed).unwrap();
    assert_eq!(info.channels, 1);
    assert_eq!(info.sample_rate, 16000);
    // max(len_a, len_b) samples; the tail is the longer stream at half
    assert_eq!(samples, vec![75, 75, 50, 50]);
}

#[test]
fn mix_wav_bytes_resamples_second_input() {
    let a = encode_wav_bytes(1, 16000, &vec![0i16, 0, 0, 0]).unwrap();
    let b = encode_wav_bytes(1, 32000, &vec![100i16, 100, 100, 100]).unwrap();
    let mixed = mix_wav_bytes(&a, &b).unwrap();
    let (_, samples) = decode_wav_bytes(&mixed).unwrap();
    assert_eq!(samples.len(), 4);
    assert_eq!(samples[0], 50);
}

#[test]
fn mix_wav_bytes_rejects_bad_input() {
    let a = encode_wav_bytes(1, 16000, &vec![0i16]).unwrap();
    let garbage = vec![9u8; 16];
    assert!(mix_wav_bytes(&a, &garbage).is_err());
    assert!(mix_wav_bytes(&garbage, &a).is_err());
}
