//! The per-stream worker stage. The host's worker loop drains the sample
//! queue on a fixed cadence and hands each non-empty batch to
//! [`CaptureWorker::step`], which converts it to the 16 kHz output format,
//! feeds it through the voice-activity gate, and returns the emitted chunks
//! as little-endian PCM byte buffers, in order, for the callback bridge.

use vstd::prelude::*;

verus! {

use crate::AudioError;
use crate::converter::{converted_len, source_index, SampleRateConverter};
use crate::pcm::{encode_pcm_le, le_bytes_of};
use crate::vad::{chunk_views, fresh_gate, gate_step, GateModel, VadGate};

/// The mathematical conversion of a raw batch at `rate` Hz to the output
/// rate, matching [`SampleRateConverter::convert`].
pub open spec fn converted_chunk(raw: Seq<i16>, rate: int) -> Seq<i16> {
    Seq::new(
        converted_len(raw.len() as int, rate) as nat,
        |j: int| raw[source_index(j, rate)],
    )
}

/// The element-wise views of a sequence of byte buffers.
pub open spec fn buffer_views(s: Seq<Vec<u8>>) -> Seq<Seq<u8>> {
    Seq::new(s.len(), |i: int| s[i]@)
}

/// The byte buffers forwarded for a gate emission: every non-empty emitted
/// chunk, in order, as little-endian PCM bytes.
pub open spec fn emitted_buffers(emitted: Seq<Seq<i16>>) -> Seq<Seq<u8>>
    decreases emitted.len()
{
    if emitted.len() == 0 {
        Seq::empty()
    } else {
        let pre = emitted_buffers(emitted.drop_last());
        if emitted.last().len() > 0 {
            pre.push(le_bytes_of(emitted.last()))
        } else {
            pre
        }
    }
}

/// What one worker step does to the voice-activity gate and emits, given the raw batch, the
/// configured rate, and the arrival time: an empty batch, a batch whose
/// conversion would not fit in memory, and a batch that converts to nothing
/// are all skipped without touching the voice-activity gate; otherwise the converted chunk
/// takes one gate transition and the emission is encoded.
pub open spec fn step_result(gate: GateModel, raw: Seq<i16>, rate: int, now: int) -> (GateModel,
    Seq<Seq<u8>>) {
    if raw.len() == 0 || converted_len(raw.len() as int, rate) > usize::MAX
        || converted_len(raw.len() as int, rate) == 0 {
        (gate, Seq::empty())
    } else {
        let st = gate_step(gate, converted_chunk(raw, rate), now);
        (st.model, emitted_buffers(st.emitted))
    }
}

/// The worker-side state of one capture stream: its sample-rate converter and
/// its voice-activity gate, owned by the worker thread alone.
pub struct CaptureWorker {
    converter: SampleRateConverter,
    gate: VadGate,
}

impl CaptureWorker {
    /// The configured input rate, in hertz.
    pub closed spec fn spec_input_rate(&self) -> int {
        self.converter.spec_input_rate()
    }

    /// The model of the worker's gate.
    pub closed spec fn spec_gate(&self) -> GateModel {
        self.gate@
    }

    /// Converter and gate are both well-formed.
    pub open spec fn wf(&self) -> bool {
        &&& 1 <= self.spec_input_rate()
        &&& crate::vad::wf_model(self.spec_gate())
    }

    /// A worker for a stream at `input_rate` Hz with the given pre-roll
    /// depth. Fails exactly when the rate is not a positive frequency.
    pub fn new(input_rate: u32, preroll_chunks: usize) -> (r: Result<CaptureWorker, AudioError>)
        ensures
            match r {
                Ok(w) => {
                    &&& input_rate >= 1
                    &&& w.spec_input_rate() == input_rate
                    &&& w.spec_gate() == fresh_gate(
                        crate::VAD_START_RMS as int,
                        crate::VAD_END_RMS as int,
                        crate::VAD_HANGOVER_MS as int,
                        preroll_chunks as int,
                    )
                    &&& w.wf()
                },
                Err(e) => input_rate == 0 && e == AudioError::UnsupportedRate,
            },
    {
        let converter = match SampleRateConverter::new(input_rate) {
            Ok(c) => c,
            Err(e) => {
                return Err(e);
            },
        };
        Ok(CaptureWorker { converter, gate: VadGate::new_with_config(preroll_chunks) })
    }

    /// A worker for a microphone stream: the short pre-roll.
    pub fn microphone(input_rate: u32) -> (r: Result<CaptureWorker, AudioError>)
        ensures
            match r {
                Ok(w) => {
                    &&& input_rate >= 1
                    &&& w.spec_input_rate() == input_rate
                    &&& w.spec_gate() == fresh_gate(
                        crate::VAD_START_RMS as int,
                        crate::VAD_END_RMS as int,
                        crate::VAD_HANGOVER_MS as int,
                        crate::VAD_PREROLL_CHUNKS as int,
                    )
                    &&& w.wf()
                },
                Err(e) => input_rate == 0 && e == AudioError::UnsupportedRate,
            },
    {
        Self::new(input_rate, crate::VAD_PREROLL_CHUNKS)
    }

    /// A worker for a system-audio stream: the deep pre-roll.
    pub fn system_audio(input_rate: u32) -> (r: Result<CaptureWorker, AudioError>)
        ensures
            match r {
                Ok(w) => {
                    &&& input_rate >= 1
                    &&& w.spec_input_rate() == input_rate
                    &&& w.spec_gate() == fresh_gate(
                        crate::VAD_START_RMS as int,
                        crate::VAD_END_RMS as int,
                        crate::VAD_HANGOVER_MS as int,
                        crate::SYSTEM_AUDIO_PREROLL_CHUNKS as int,
                    )
                    &&& w.wf()
                },
                Err(e) => input_rate == 0 && e == AudioError::UnsupportedRate,
            },
    {
        Self::new(input_rate, crate::SYSTEM_AUDIO_PREROLL_CHUNKS)
    }

    /// Process one drained batch of raw samples that arrived at wall-clock
    /// time `now_ms`: convert, gate, and encode. Returns the byte buffers to
    /// forward downstream, in order; the batch is skipped (nothing emitted,
    /// gate untouched) exactly when it is empty or converts to nothing.
    #[verifier::loop_isolation(false)]
    pub fn step(&mut self, raw: Vec<i16>, now_ms: u64) -> (out: Vec<Vec<u8>>)
        requires
            old(self).wf(),
        ensures
            final(self).wf(),
            final(self).spec_input_rate() == old(self).spec_input_rate(),
            ({
                let (gate, buffers) = step_result(
                    old(self).spec_gate(),
                    raw@,
                    old(self).spec_input_rate(),
                    now_ms as int,
                );
                &&& final(self).spec_gate() == gate
                &&& buffer_views(out@) == buffers
            }),
    {
        if raw.len() == 0 {
            let out: Vec<Vec<u8>> = Vec::new();
            proof {
                assert(buffer_views(out@) =~~= Seq::<Seq<u8>>::empty());
            }
            return out;
        }
        let converted = match self.converter.convert(&raw) {
            Ok(c) => c,
            Err(_) => {
                let out: Vec<Vec<u8>> = Vec::new();
                proof {
                    assert(buffer_views(out@) =~~= Seq::<Seq<u8>>::empty());
                }
                return out;
            },
        };
        if converted.len() == 0 {
            let out: Vec<Vec<u8>> = Vec::new();
            proof {
                assert(buffer_views(out@) =~~= Seq::<Seq<u8>>::empty());
            }
            return out;
        }
        proof {
            assert(converted@ =~~= converted_chunk(raw@, self.spec_input_rate()));
        }
        let ghost st = gate_step(
            self.spec_gate(),
            converted_chunk(raw@, self.spec_input_rate()),
            now_ms as int,
        );
        let chunks = self.gate.process(converted, now_ms);
        proof {
            assert(chunk_views(chunks@) == st.emitted);
        }
        let mut out: Vec<Vec<u8>> = Vec::new();
        let mut i: usize = 0;
        while i < chunks.len()
            invariant
                0 <= i <= chunks@.len(),
                buffer_views(out@) =~~= emitted_buffers(
                    chunk_views(chunks@).subrange(0, i as int),
                ),
            decreases chunks@.len() - i,
        {
            let ghost pre = chunk_views(chunks@).subrange(0, i as int);
            proof {
                assert(chunk_views(chunks@).subrange(0, i as int + 1).drop_last() =~~= pre);
                assert(chunk_views(chunks@).subrange(0, i as int + 1).last()
                    == chunks@[i as int]@);
            }
            let c = &chunks[i];
            if c.len() > 0 {
                let encoded = encode_pcm_le(c);
                out.push(encoded);
                proof {
                    assert(buffer_views(out@) =~~= emitted_buffers(
                        chunk_views(chunks@).subrange(0, i as int + 1),
                    ));
                }
            } else {
                proof {
                    assert(buffer_views(out@) =~~= emitted_buffers(
                        chunk_views(chunks@).subrange(0, i as int + 1),
                    ));
                }
            }
            i = i + 1;
        }
        proof {
            assert(chunk_views(chunks@).subrange(0, chunks@.len() as int) =~~= chunk_views(
                chunks@,
            ));
        }
        out
    }

    /// Force the voice-activity gate back to `Idle` with an empty pre-roll FIFO, as done
    /// when a stream is stopped and restarted.
    pub fn reset_gate(&mut self)
        ensures
            old(self).wf() ==> final(self).wf(),
            final(self).spec_input_rate() == old(self).spec_input_rate(),
            final(self).spec_gate() == crate::vad::reset_model(old(self).spec_gate()),
    {
        self.gate.reset();
    }
}

} // verus!
