//! Tests of the video frame source's decision logic.

use szmelc_player::video::{
    FfmpegOptions, VideoDecodeEvent, VideoDecoder, VideoObservation, VideoStep,
};

fn decoder_with_resize() -> VideoDecoder {
    VideoDecoder::new(
        640,
        480,
        (30, 1),
        10,
        FfmpegOptions { resize: Some((4, 2)) },
    )
    .expect("frame fits")
}

#[test]
fn resize_overrides_native_size() {
    let d = decoder_with_resize();
    assert_eq!((d.width, d.height), (4, 2));
    assert_eq!(d.frame().len(), 4 * 2 * 3);
    assert_eq!(d.framerate, (30, 1));
    assert_eq!(d.packet_count, 10);
}

#[test]
fn native_size_without_resize() {
    let d = VideoDecoder::new(6, 2, (25, 1), 3, FfmpegOptions { resize: None }).expect("fits");
    assert_eq!((d.width, d.height), (6, 2));
    assert_eq!(d.frame().len(), 6 * 2 * 3);
}

#[test]
fn packets_open_windows_and_frames_fill_them() {
    let mut d = decoder_with_resize();
    let mut events: Vec<VideoDecodeEvent> = Vec::new();

    assert!(d.wants_packet());
    let step = d.next(VideoObservation::PacketPulled);
    assert_eq!(step, VideoStep::Event(VideoDecodeEvent::StartPacket));
    events.push(VideoDecodeEvent::StartPacket);

    assert!(!d.wants_packet());
    let frame: Vec<u8> = (0..24).collect();
    let step = d.next(VideoObservation::FrameReceived(frame.clone()));
    assert_eq!(step, VideoStep::Event(VideoDecodeEvent::Frame));
    assert_eq!(d.frame(), &frame);
    events.push(VideoDecodeEvent::Frame);

    let second: Vec<u8> = (100..124).collect();
    let step = d.next(VideoObservation::FrameReceived(second.clone()));
    assert_eq!(step, VideoStep::Event(VideoDecodeEvent::Frame));
    assert_eq!(d.frame(), &second);
    events.push(VideoDecodeEvent::Frame);

    let step = d.next(VideoObservation::FrameNotReady);
    assert_eq!(step, VideoStep::NeedPacket);
    assert!(d.wants_packet());

    let step = d.next(VideoObservation::PacketPulled);
    assert_eq!(step, VideoStep::Event(VideoDecodeEvent::StartPacket));
    events.push(VideoDecodeEvent::StartPacket);

    let step = d.next(VideoObservation::FrameNotReady);
    assert_eq!(step, VideoStep::NeedPacket);

    let step = d.next(VideoObservation::StreamEnded);
    assert_eq!(step, VideoStep::EndOfStream);
    assert!(d.is_finished());

    let starts = events
        .iter()
        .filter(|e| matches!(e, VideoDecodeEvent::StartPacket))
        .count();
    assert_eq!(starts, 2);
    assert!(matches!(events[0], VideoDecodeEvent::StartPacket));
}

#[test]
fn a_packet_may_yield_no_frame() {
    let mut d = decoder_with_resize();
    assert_eq!(
        d.next(VideoObservation::PacketPulled),
        VideoStep::Event(VideoDecodeEvent::StartPacket)
    );
    assert_eq!(d.next(VideoObservation::FrameNotReady), VideoStep::NeedPacket);
    assert_eq!(d.next(VideoObservation::StreamEnded), VideoStep::EndOfStream);
    assert!(d.is_finished());
}

#[test]
fn empty_stream_ends_immediately() {
    let mut d = decoder_with_resize();
    assert_eq!(d.next(VideoObservation::StreamEnded), VideoStep::EndOfStream);
    assert!(d.is_finished());
}
