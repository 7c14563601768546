//! Decision logic of the video frame source.
//!
//! The external codec library pulls packets, decodes and scales; this module
//! decides, from the decoder state and what the library reported, which event
//! the caller sees next and what the driver has to do. The driver performs
//! one codec call per step and feeds its outcome back as a
//! `VideoObservation`.

use vstd::prelude::*;

verus! {

/// Options for opening a video: an optional output size override.
pub struct FfmpegOptions {
    /// If `Some`, the video will be scaled to the provided size.
    pub resize: Option<(u32, u32)>,
}

/// What a caller of `next` sees.
#[derive(Clone, Copy, Debug, PartialEq, Eq, Structural)]
pub enum VideoDecodeEvent {
    /// A new input packet was submitted to the decoder.
    StartPacket,
    /// A decoded, scaled frame is available in the frame buffer, valid until
    /// the next call that advances decoding.
    Frame,
}

/// What the driver observed from the codec library for one step.
pub enum VideoObservation {
    /// A packet of the selected stream was pulled and submitted.
    PacketPulled,
    /// No packet remains in the input.
    StreamEnded,
    /// The decoder produced a frame; these are its scaled RGB24 bytes.
    FrameReceived(Vec<u8>),
    /// The decoder has no frame ready for the current packet.
    FrameNotReady,
}

/// What one step yields.
#[derive(Clone, Copy, Debug, PartialEq, Eq, Structural)]
pub enum VideoStep {
    /// An event for the caller.
    Event(VideoDecodeEvent),
    /// Nothing yet: the driver must pull the next packet and step again.
    NeedPacket,
    /// Input exhausted: the driver flushes the decoder and stops.
    EndOfStream,
}

/// Every frame event comes inside a window opened by an earlier
/// start-of-packet event.
pub open spec fn events_ok(h: Seq<VideoDecodeEvent>) -> bool {
    forall|i: int|
        0 <= i < h.len() && h[i] == VideoDecodeEvent::Frame ==> exists|j: int|
            0 <= j < i && h[j] == VideoDecodeEvent::StartPacket
}

proof fn lemma_events_ok_push(h: Seq<VideoDecodeEvent>, e: VideoDecodeEvent)
    requires
        events_ok(h),
        e == VideoDecodeEvent::Frame ==> exists|j: int|
            0 <= j < h.len() && h[j] == VideoDecodeEvent::StartPacket,
    ensures
        events_ok(h.push(e)),
{
    let g = h.push(e);
    assert forall|i: int|
        0 <= i < g.len() && g[i] == VideoDecodeEvent::Frame implies exists|j: int|
        0 <= j < i && g[j] == VideoDecodeEvent::StartPacket by {
        if i < h.len() {
            assert(g[i] == h[i]);
            let j = choose|j: int| 0 <= j < i && h[j] == VideoDecodeEvent::StartPacket;
            assert(g[j] == h[j]);
            assert(0 <= j < i && g[j] == VideoDecodeEvent::StartPacket);
        } else {
            assert(g[i] == e);
            let j = choose|j: int| 0 <= j < h.len() && h[j] == VideoDecodeEvent::StartPacket;
            assert(g[j] == h[j]);
            assert(0 <= j < i && g[j] == VideoDecodeEvent::StartPacket);
        }
    }
}

/// How many packet windows were opened in a history: one per packet pulled
/// from the stream, so a full pass over the input opens exactly as many as
/// the stream has packets.
pub open spec fn start_packet_count(h: Seq<VideoDecodeEvent>) -> nat
    decreases h.len(),
{
    if h.len() == 0 {
        0
    } else {
        start_packet_count(h.drop_last()) + (if h.last() == VideoDecodeEvent::StartPacket {
            1 as nat
        } else {
            0
        })
    }
}

/// The size the decoder emits at: the override if one was requested, the
/// source's native size otherwise.
pub open spec fn chosen_size(options: FfmpegOptions, native_width: u32, native_height: u32) -> (
    u32,
    u32,
) {
    match options.resize {
        Some(wh) => wh,
        None => (native_width, native_height),
    }
}

/// The video frame source, less the codec contexts: target size, frame rate,
/// the pre-scanned packet count, the reused RGB frame buffer, and whether a
/// packet is currently being drained.
pub struct VideoDecoder {
    pub width: u32,
    pub height: u32,
    /// Frame rate as numerator and denominator.
    pub framerate: (u32, u32),
    /// Number of packets on the stream, counted ahead for progress display.
    pub packet_count: usize,
    pub draining: bool,
    pub finished: bool,
    pub frame_buffer: Vec<u8>,
    pub history: Ghost<Seq<VideoDecodeEvent>>,
}

impl VideoDecoder {
    /// A packet is being drained: frames may still come out of it.
    pub closed spec fn draining(&self) -> bool {
        self.draining
    }

    /// The end of the stream was reached.
    pub closed spec fn finished(&self) -> bool {
        self.finished
    }

    /// All events emitted so far, oldest first.
    pub closed spec fn history(&self) -> Seq<VideoDecodeEvent> {
        self.history@
    }

    /// Byte length of one RGB24 frame at the target size.
    pub closed spec fn frame_len(&self) -> int {
        self.width as int * self.height as int * 3
    }

    /// The frame buffer holds one frame and the event history is coherent.
    pub closed spec fn wf(&self) -> bool {
        &&& self.frame_buffer@.len() == self.frame_len()
        &&& events_ok(self.history@)
        &&& self.draining ==> exists|j: int|
            0 <= j < self.history@.len() && self.history@[j] == VideoDecodeEvent::StartPacket
    }

    /// The scaled frame most recently received, one `width * height * 3`
    /// RGB24 buffer reused across frames: its content is overwritten by the
    /// next step that receives a frame.
    pub fn frame(&self) -> (r: &Vec<u8>)
        ensures
            r@ == self.frame_bytes(),
    {
        &self.frame_buffer
    }

    pub closed spec fn frame_bytes(&self) -> Seq<u8> {
        self.frame_buffer@
    }

    /// Sets up a frame source for a probed video stream: `native_width` and
    /// `native_height` are the decoder's own size, `framerate` the stream's
    /// rate, `packet_count` the pre-scanned number of packets. The target
    /// size is the resize override if one was given, regardless of the
    /// native size. `None` only when one frame would not fit in memory.
    pub fn new(
        native_width: u32,
        native_height: u32,
        framerate: (u32, u32),
        packet_count: usize,
        options: FfmpegOptions,
    ) -> (r: Option<VideoDecoder>)
        ensures
            match r {
                Some(d) => {
                    &&& d.wf()
                    &&& (d.width, d.height) == chosen_size(options, native_width, native_height)
                    &&& d.frame_len() == d.width as int * d.height as int * 3
                    &&& d.frame_bytes().len() == d.frame_len()
                    &&& d.framerate == framerate
                    &&& d.packet_count == packet_count
                    &&& !d.draining()
                    &&& !d.finished()
                    &&& d.history() == Seq::<VideoDecodeEvent>::empty()
                },
                None => {
                    let (w, h) = chosen_size(options, native_width, native_height);
                    w as int * h as int * 3 > usize::MAX
                },
            },
    {
        let (width, height) = match options.resize {
            Some(wh) => wh,
            None => (native_width, native_height),
        };
        let w128 = width as u128;
        let h128 = height as u128;
        proof {
            assert(w128 as int * h128 as int * 3 <= 0xffff_ffff as int * 0xffff_ffff as int * 3)
                by (nonlinear_arith)
                requires
                    w128 <= 0xffff_ffffu128,
                    h128 <= 0xffff_ffffu128,
            ;
        }
        let len128: u128 = w128 * h128 * 3;
        if len128 > (usize::MAX as u128) {
            return None;
        }
        let len: usize = len128 as usize;
        let mut frame_buffer: Vec<u8> = Vec::new();
        let mut i: usize = 0;
        while i < len
            invariant
                i <= len,
                frame_buffer@.len() == i,
            decreases len - i,
        {
            frame_buffer.push(0);
            i += 1;
        }
        Some(
            VideoDecoder {
                width,
                height,
                framerate,
                packet_count,
                draining: false,
                finished: false,
                frame_buffer,
                history: Ghost(Seq::empty()),
            },
        )
    }

    /// The driver must pull a packet next; otherwise it must ask the decoder
    /// for a frame.
    pub fn wants_packet(&self) -> (r: bool)
        ensures
            r == !self.draining(),
    {
        !self.draining
    }

    pub fn is_finished(&self) -> (r: bool)
        ensures
            r == self.finished(),
    {
        self.finished
    }

    /// One step of decoding. While no packet is being drained the driver
    /// pulls a packet (or reports the end of the input); a pulled packet is
    /// submitted and announced as `StartPacket`. While a packet is being
    /// drained the driver asks the decoder for a frame: a received frame is
    /// scaled into the frame buffer and announced as `Frame`; a decoder with
    /// no frame ready closes the packet's window, and the driver must pull
    /// the next packet. Zero or more frames may thus follow one
    /// `StartPacket`, and no `Frame` is ever announced without an earlier
    /// `StartPacket`.
    #[verifier::rlimit(60)]
    pub fn next(&mut self, obs: VideoObservation) -> (step: VideoStep)
        requires
            old(self).wf(),
            !old(self).finished(),
            !old(self).draining() ==> (obs matches VideoObservation::PacketPulled
                || obs matches VideoObservation::StreamEnded),
            old(self).draining() ==> (obs matches VideoObservation::FrameReceived(_)
                || obs matches VideoObservation::FrameNotReady),
            obs matches VideoObservation::FrameReceived(f) ==> f@.len() == old(self).frame_len(),
        ensures
            final(self).wf(),
            final(self).frame_len() == old(self).frame_len(),
            final(self).frame_bytes().len() == final(self).frame_len(),
            final(self).width == old(self).width,
            final(self).height == old(self).height,
            final(self).framerate == old(self).framerate,
            final(self).packet_count == old(self).packet_count,
            start_packet_count(final(self).history()) == start_packet_count(old(self).history())
                + (match obs {
                VideoObservation::PacketPulled => 1 as int,
                _ => 0 as int,
            }),
            match obs {
                VideoObservation::PacketPulled => {
                    &&& step == VideoStep::Event(VideoDecodeEvent::StartPacket)
                    &&& final(self).draining()
                    &&& !final(self).finished()
                    &&& final(self).history() == old(self).history().push(
                        VideoDecodeEvent::StartPacket,
                    )
                    &&& final(self).frame_bytes() == old(self).frame_bytes()
                },
                VideoObservation::StreamEnded => {
                    &&& step == VideoStep::EndOfStream
                    &&& final(self).finished()
                    &&& final(self).history() == old(self).history()
                    &&& final(self).frame_bytes() == old(self).frame_bytes()
                },
                VideoObservation::FrameReceived(f) => {
                    &&& step == VideoStep::Event(VideoDecodeEvent::Frame)
                    &&& final(self).draining()
                    &&& !final(self).finished()
                    &&& final(self).history() == old(self).history().push(
                        VideoDecodeEvent::Frame,
                    )
                    &&& final(self).frame_bytes() == f@
                },
                VideoObservation::FrameNotReady => {
                    &&& step == VideoStep::NeedPacket
                    &&& !final(self).draining()
                    &&& !final(self).finished()
                    &&& final(self).history() == old(self).history()
                    &&& final(self).frame_bytes() == old(self).frame_bytes()
                },
            },
    {
        match obs {
            VideoObservation::PacketPulled => {
                self.draining = true;
                proof {
                    lemma_events_ok_push(old(self).history@, VideoDecodeEvent::StartPacket);
                    self.history@ = old(self).history@.push(VideoDecodeEvent::StartPacket);
                    let n = old(self).history@.len() as int;
                    assert(self.history@[n] == VideoDecodeEvent::StartPacket);
                    assert(self.history@.drop_last() =~= old(self).history@);
                }
                VideoStep::Event(VideoDecodeEvent::StartPacket)
            },
            VideoObservation::StreamEnded => {
                self.finished = true;
                VideoStep::EndOfStream
            },
            VideoObservation::FrameReceived(f) => {
                self.frame_buffer = f;
                proof {
                    lemma_events_ok_push(old(self).history@, VideoDecodeEvent::Frame);
                    self.history@ = old(self).history@.push(VideoDecodeEvent::Frame);
                    let j = choose|j: int|
                        0 <= j < old(self).history@.len() && old(self).history@[j]
                            == VideoDecodeEvent::StartPacket;
                    assert(self.history@[j] == VideoDecodeEvent::StartPacket);
                    assert(self.history@.drop_last() =~= old(self).history@);
                }
                VideoStep::Event(VideoDecodeEvent::Frame)
            },
            VideoObservation::FrameNotReady => {
                self.draining = false;
                VideoStep::NeedPacket
            },
        }
    }
}

/// The sequencing law of the frame source: in any state a decoder can reach,
/// no `Frame` event stands in its history without an earlier `StartPacket`.
pub proof fn lemma_no_frame_without_packet(d: &VideoDecoder)
    requires
        d.wf(),
    ensures
        events_ok(d.history()),
{
}

} // verus!
