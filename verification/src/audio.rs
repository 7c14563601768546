//! Decision logic of the audio transcoder.
//!
//! The external codec library decodes, resamples, encodes and writes the
//! lossless output container; this module keeps the transcode in its lawful
//! order — header, packets, a decoder flush, resampler flushes until no
//! delay remains, the encoder flush and the trailer — and sizes the reused
//! resample scratch buffer, which only ever grows.

use vstd::prelude::*;

verus! {

/// Where the transcode stands.
#[derive(Clone, Copy, Debug, PartialEq, Eq, Structural)]
pub enum AudioPhase {
    /// The output header has not been written yet.
    Header,
    /// Input packets are being consumed.
    Packets,
    /// The input is exhausted; the resampler is flushed until it reports no
    /// remaining delay.
    ResamplerFlush,
    /// The encoder is flushed and the trailer written.
    EncoderFlush,
    /// The output container is finalized.
    Done,
}

/// The audio transcoder, less the codec contexts: the source sample rate,
/// the pre-scanned packet count, the transcode phase and the capacity of the
/// resample scratch buffer in samples.
pub struct AudioTranscoder {
    pub sample_rate: u32,
    /// Number of packets in the input, counted ahead for progress display.
    pub packet_count: usize,
    pub phase: AudioPhase,
    pub resample_capacity: usize,
    /// How many input packets were consumed so far.
    pub packets_seen: usize,
}

impl AudioTranscoder {
    /// Sets up a transcoder for a probed audio stream. The output runs at
    /// the source's own sample rate.
    pub fn new(sample_rate: u32, packet_count: usize) -> (r: AudioTranscoder)
        ensures
            r.sample_rate == sample_rate,
            r.packet_count == packet_count,
            r.phase == AudioPhase::Header,
            r.resample_capacity == 0,
            r.packets_seen == 0,
    {
        AudioTranscoder {
            sample_rate,
            packet_count,
            phase: AudioPhase::Header,
            resample_capacity: 0,
            packets_seen: 0,
        }
    }

    /// Metadata is copied and the output header written: packets may flow.
    pub fn begin(&mut self)
        requires
            old(self).phase == AudioPhase::Header,
        ensures
            *final(self) == (AudioTranscoder { phase: AudioPhase::Packets, ..*old(self) }),
    {
        self.phase = AudioPhase::Packets;
    }

    /// One input packet was pulled; the progress callback has run for it.
    /// Returns whether the packet belongs to the selected stream and must be
    /// fed to the decoder and drained.
    pub fn packet(&mut self, on_selected_stream: bool) -> (decode: bool)
        requires
            old(self).phase == AudioPhase::Packets,
            old(self).packets_seen < usize::MAX,
        ensures
            decode == on_selected_stream,
            *final(self) == (AudioTranscoder {
                packets_seen: (old(self).packets_seen + 1) as usize,
                ..*old(self)
            }),
    {
        self.packets_seen = self.packets_seen + 1;
        on_selected_stream
    }

    /// Makes the scratch buffer large enough for `required` resampled
    /// samples. The capacity never shrinks: it becomes the larger of the old
    /// capacity and the requirement. Returns whether a new allocation is
    /// needed.
    pub fn reserve_resampled(&mut self, required: usize) -> (realloc: bool)
        ensures
            realloc == (required > old(self).resample_capacity),
            final(self).resample_capacity == if required > old(self).resample_capacity {
                required
            } else {
                old(self).resample_capacity
            },
            final(self).resample_capacity >= old(self).resample_capacity,
            *final(self) == (AudioTranscoder {
                resample_capacity: final(self).resample_capacity,
                ..*old(self)
            }),
    {
        if required > self.resample_capacity {
            self.resample_capacity = required;
            true
        } else {
            false
        }
    }

    /// The input is exhausted: the decoder gets its end-of-stream and a
    /// flush, then the resampler flushes begin.
    pub fn input_exhausted(&mut self)
        requires
            old(self).phase == AudioPhase::Packets,
        ensures
            *final(self) == (AudioTranscoder { phase: AudioPhase::ResamplerFlush, ..*old(self) }),
    {
        self.phase = AudioPhase::ResamplerFlush;
    }

    /// One resampler flush ran; `delay_remaining` is whether the resampler
    /// still holds samples. Returns whether another flush is due: flushing
    /// ends exactly when no delay remains.
    pub fn resampler_flushed(&mut self, delay_remaining: bool) -> (again: bool)
        requires
            old(self).phase == AudioPhase::ResamplerFlush,
        ensures
            again == delay_remaining,
            *final(self) == (AudioTranscoder {
                phase: if delay_remaining {
                    AudioPhase::ResamplerFlush
                } else {
                    AudioPhase::EncoderFlush
                },
                ..*old(self)
            }),
    {
        if delay_remaining {
            true
        } else {
            self.phase = AudioPhase::EncoderFlush;
            false
        }
    }

    /// The encoder got its end-of-stream, its pending packets were written,
    /// and the trailer closed the output container.
    pub fn finish(&mut self)
        requires
            old(self).phase == AudioPhase::EncoderFlush,
        ensures
            *final(self) == (AudioTranscoder { phase: AudioPhase::Done, ..*old(self) }),
    {
        self.phase = AudioPhase::Done;
    }
}

} // verus!
