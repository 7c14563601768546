//! Tests of the audio transcoder's phase machine and scratch buffer.

use szmelc_player::audio::{AudioPhase, AudioTranscoder};

#[test]
fn phases_run_in_order() {
    let mut t = AudioTranscoder::new(44100, 5);
    assert_eq!(t.sample_rate, 44100);
    assert_eq!(t.packet_count, 5);
    assert_eq!(t.phase, AudioPhase::Header);

    t.begin();
    assert_eq!(t.phase, AudioPhase::Packets);

    assert!(t.packet(true));
    assert!(!t.packet(false));
    assert_eq!(t.packets_seen, 2);

    t.input_exhausted();
    assert_eq!(t.phase, AudioPhase::ResamplerFlush);

    assert!(t.resampler_flushed(true));
    assert_eq!(t.phase, AudioPhase::ResamplerFlush);
    assert!(t.resampler_flushed(true));
    assert!(!t.resampler_flushed(false));
    assert_eq!(t.phase, AudioPhase::EncoderFlush);

    t.finish();
    assert_eq!(t.phase, AudioPhase::Done);
}

#[test]
fn scratch_buffer_only_grows() {
    let mut t = AudioTranscoder::new(48000, 0);
    assert_eq!(t.resample_capacity, 0);

    assert!(t.reserve_resampled(100));
    assert_eq!(t.resample_capacity, 100);

    assert!(!t.reserve_resampled(50));
    assert_eq!(t.resample_capacity, 100);

    assert!(!t.reserve_resampled(100));
    assert_eq!(t.resample_capacity, 100);

    assert!(t.reserve_resampled(200));
    assert_eq!(t.resample_capacity, 200);
}
