//! Silence-suppressing audio pipeline: a voice-activity gate with hysteresis
//! and pre-roll, an integer sample-rate converter to 16 kHz mono PCM, and the
//! bounded-queue plumbing that carries samples from a capture callback to the
//! worker stage that gates them.

pub mod converter;
pub mod pcm;
pub mod queue;
pub mod devices;
pub mod rate;
pub mod speaker;
pub mod worker;
pub mod vad;

use vstd::prelude::*;

verus! {

/// Nominal output sample rate of the pipeline, in hertz.
pub const SAMPLE_RATE: u32 = 16000;

/// Nominal duration of one gated chunk, in milliseconds.
pub const CHUNK_MS: u32 = 100;

/// Samples per nominal chunk at the output rate.
pub const CHUNK_SAMPLES: usize = 1600;

/// RMS above which the voice-activity gate triggers (enters `Speech`).
pub const VAD_START_RMS: u64 = 100;

/// RMS below which speech is considered to have fallen quiet.
pub const VAD_END_RMS: u64 = 50;

/// How long the voice-activity gate keeps emitting after speech falls quiet, in milliseconds.
pub const VAD_HANGOVER_MS: u64 = 500;

/// Pre-roll FIFO depth for microphone capture, in chunks.
pub const VAD_PREROLL_CHUNKS: usize = 3;

/// Pre-roll FIFO depth for system-audio (loopback) capture, in chunks: false
/// triggers are costlier there, so a longer onset history is kept.
pub const SYSTEM_AUDIO_PREROLL_CHUNKS: usize = 20;

/// Errors reported by the pipeline's verified components.
#[derive(Clone, Copy, Debug, PartialEq, Eq, Structural)]
pub enum AudioError {
    /// A sample-rate converter cannot be built for the given input rate.
    UnsupportedRate,
    /// A conversion's output would hold more samples than a `Vec` can.
    OutputTooLarge,
}

} // verus!
