use tcast::audio::{config_at_48k, decode_frame, encode_frame, mix, Capture, Framer, Playback,
    FRAME_SAMPLES, PREBUFFER_SAMPLES, RING_CAPACITY};
use std::sync::atomic::{AtomicBool, Ordering};
use std::sync::Arc;

#[test]
fn frame_round_trips() {
    let samples: Vec<i16> = vec![0, 1, -1, 32767, -32768, 1234];
    let bytes = encode_frame(&samples);
    assert_eq!(bytes.len(), samples.len() * 2);
    assert_eq!(decode_frame(&bytes), samples);
}

#[test]
fn samples_are_little_endian() {
    assert_eq!(encode_frame(&[0x1234, -2]), vec![0x34, 0x12, 0xfe, 0xff]);
    assert_eq!(decode_frame(&[0x34, 0x12, 0xfe, 0xff]), vec![0x1234, -2]);
}

#[test]
fn odd_byte_is_dropped() {
    assert_eq!(decode_frame(&[1, 0, 7]), vec![1]);
    assert!(decode_frame(&[7]).is_empty());
    assert!(decode_frame(&[]).is_empty());
}

#[test]
fn bytes_round_trip() {
    let bytes: Vec<u8> = vec![0, 0, 255, 127, 0, 128, 17, 200];
    assert_eq!(encode_frame(&decode_frame(&bytes)), bytes);
}

#[test]
fn first_fitting_configuration_is_taken() {
    assert_eq!(config_at_48k(&[(8000, 44100), (44100, 48000), (48000, 96000)]), Some(1));
    assert_eq!(config_at_48k(&[(48001, 96000)]), None);
    assert_eq!(config_at_48k(&[(48000, 48000)]), Some(0));
    assert_eq!(config_at_48k(&[]), None);
}

#[test]
fn capture_hands_out_its_switch() {
    let flag = Arc::new(AtomicBool::new(false));
    let capture = Capture::new(flag.clone());
    capture.enabled().store(true, Ordering::Relaxed);
    assert!(flag.load(Ordering::Relaxed));
}

#[test]
fn channels_are_averaged_toward_zero() {
    assert_eq!(mix(&[1, 2, -1, -2, 100, 300], 2), vec![1, -1, 200]);
    assert_eq!(mix(&[5, 6, 7], 1), vec![5, 6, 7]);
    assert_eq!(mix(&[5, 6, 7], 0), vec![5, 6, 7]);
    assert_eq!(mix(&[32767, 32767, -32768, -32768], 2), vec![32767, -32768]);
}

#[test]
fn short_last_group_is_divided_by_all_channels() {
    assert_eq!(mix(&[10, 20, 9], 2), vec![15, 4]);
    assert!(mix(&[], 2).is_empty());
}

#[test]
fn frames_hold_all_samples() {
    let mut f = Framer::new();
    let data: Vec<i16> = (0..2000).collect();
    let first = f.feed(true, &data, 1);
    assert_eq!(first.len(), 2);
    assert!(first.iter().all(|x| x.len() == FRAME_SAMPLES));
    let more: Vec<i16> = (2000..3000).collect();
    let second = f.feed(true, &more, 1);
    assert_eq!(second.len(), 1);
    let mut all: Vec<i16> = Vec::new();
    for x in first.iter().chain(second.iter()) {
        all.extend_from_slice(x);
    }
    let want: Vec<i16> = (0..2880).collect();
    assert_eq!(all, want);
}

#[test]
fn nothing_is_captured_while_off() {
    let mut f = Framer::new();
    assert!(f.feed(false, &[1; 5000], 1).is_empty());
    assert!(f.feed(true, &[2; 959], 1).is_empty());
    assert!(f.feed(false, &[3; 5000], 1).is_empty());
    let frames = f.feed(true, &[2; 1], 1);
    assert_eq!(frames, vec![vec![2; 960]]);
}

#[test]
fn speaker_is_silent_until_enough_is_gathered() {
    let mut p = Playback::new();
    let mut out = vec![9; 10];
    p.push(&vec![5; PREBUFFER_SAMPLES - 1]);
    p.fill(&mut out, 1);
    assert_eq!(out, vec![0; 10]);
    p.push(&[6]);
    p.fill(&mut out, 1);
    assert_eq!(out, vec![5; 10]);
}

#[test]
fn samples_are_played_in_order_on_all_channels() {
    let mut p = Playback::new();
    let samples: Vec<i16> = (1..=2880).collect();
    p.push(&samples);
    let mut out = vec![0; 7];
    p.fill(&mut out, 2);
    assert_eq!(out, vec![1, 1, 2, 2, 3, 3, 0]);
    let mut next = vec![0; 4];
    p.fill(&mut next, 2);
    assert_eq!(next, vec![4, 4, 5, 5]);
}

#[test]
fn underrun_gathers_again() {
    let mut p = Playback::new();
    p.push(&vec![1; PREBUFFER_SAMPLES]);
    let mut out = vec![7; PREBUFFER_SAMPLES + 5];
    p.fill(&mut out, 1);
    assert_eq!(&out[..PREBUFFER_SAMPLES], &vec![1; PREBUFFER_SAMPLES][..]);
    assert_eq!(&out[PREBUFFER_SAMPLES..], &[0; 5]);
    p.push(&[3; 100]);
    let mut later = vec![7; 4];
    p.fill(&mut later, 1);
    assert_eq!(later, vec![0; 4]);
}

#[test]
fn overrun_drops_the_oldest() {
    let mut p = Playback::new();
    p.push(&vec![1; RING_CAPACITY]);
    p.push(&[2, 3]);
    let mut out = vec![0; 8192];
    let mut heard: Vec<i16> = Vec::new();
    for _ in 0..5 {
        p.fill(&mut out, 1);
        heard.extend_from_slice(&out);
    }
    let mut rest = vec![0; RING_CAPACITY - 5 * 8192];
    p.fill(&mut rest, 1);
    heard.extend_from_slice(&rest);
    assert_eq!(heard.len(), RING_CAPACITY);
    assert_eq!(heard[RING_CAPACITY - 3..], [1, 2, 3]);
}

#[test]
fn more_than_fits_keeps_the_newest() {
    let mut p = Playback::new();
    let mut big = vec![4; RING_CAPACITY + 10];
    big[10] = 8;
    p.push(&big);
    let mut out = vec![0; 2];
    p.fill(&mut out, 1);
    assert_eq!(out, vec![8, 4]);
}
