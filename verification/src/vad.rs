//! Voice-activity gate: a deterministic state machine over fixed-duration PCM
//! chunks, with hysteresis (separate start/end thresholds), a wall-clock
//! hangover period, and a bounded pre-roll FIFO so utterance onsets are kept.

use vstd::prelude::*;

verus! {

use vstd::arithmetic::div_mod::{lemma_div_is_ordered, lemma_div_multiples_vanish};
use vstd::arithmetic::mul::lemma_mul_inequality;

/// Stride of the intentionally sub-sampled RMS estimate: every tenth sample
/// of a chunk enters the mean of squares.
pub const RMS_STRIDE: usize = 10;

/// Largest square of an `i16` sample (`(-32768)^2`).
pub const MAX_SAMPLE_SQUARE: u64 = 0x4000_0000;

/// Sum of the squares of samples `i`, `i + RMS_STRIDE`, `i + 2*RMS_STRIDE`, ...
pub open spec fn strided_square_sum_from(data: Seq<i16>, i: int) -> int
    decreases data.len() + RMS_STRIDE - i when 0 <= i
{
    if i < data.len() {
        data[i] * data[i] + strided_square_sum_from(data, i + RMS_STRIDE as int)
    } else {
        0
    }
}

/// How many samples the strided walk starting at `i` visits.
pub open spec fn strided_count_from(data: Seq<i16>, i: int) -> int
    decreases data.len() + RMS_STRIDE - i when 0 <= i
{
    if i < data.len() {
        1 + strided_count_from(data, i + RMS_STRIDE as int)
    } else {
        0
    }
}

/// Mean of the squares of every `RMS_STRIDE`-th sample; 0 for an empty chunk.
pub open spec fn mean_square(data: Seq<i16>) -> int {
    if strided_count_from(data, 0) == 0 {
        0
    } else {
        strided_square_sum_from(data, 0) / strided_count_from(data, 0)
    }
}

/// `r` is the integer square root of `n` (rounded down).
pub open spec fn is_isqrt(n: int, r: int) -> bool {
    &&& 0 <= r
    &&& r * r <= n
    &&& n < (r + 1) * (r + 1)
}

/// Integer square root, rounded down.
pub open spec fn isqrt_spec(n: int) -> int
    decreases n
{
    if n <= 0 {
        0
    } else {
        let r = isqrt_spec(n - 1);
        if (r + 1) * (r + 1) <= n {
            r + 1
        } else {
            r
        }
    }
}

/// The sub-sampled RMS of a chunk: the integer square root of the mean of
/// squares of every `RMS_STRIDE`-th sample. A pure function of the contents.
pub open spec fn rms_of(data: Seq<i16>) -> int {
    isqrt_spec(mean_square(data))
}

proof fn lemma_isqrt_spec_correct(n: int)
    requires
        n >= 0,
    ensures
        is_isqrt(n, isqrt_spec(n)),
    decreases n,
{
    if n > 0 {
        lemma_isqrt_spec_correct(n - 1);
        let r = isqrt_spec(n - 1);
        assert((r + 1) * (r + 1) < (r + 2) * (r + 2)) by (nonlinear_arith)
            requires r >= 0;
    }
}

proof fn lemma_isqrt_unique(n: int, r: int)
    requires
        n >= 0,
        is_isqrt(n, r),
    ensures
        r == isqrt_spec(n),
{
    lemma_isqrt_spec_correct(n);
    let q = isqrt_spec(n);
    if r < q {
        assert(r + 1 <= q);
        assert((r + 1) * (r + 1) <= q * q) by (nonlinear_arith)
            requires 0 <= r + 1 && r + 1 <= q;
        assert(false);
    }
    if q < r {
        assert((q + 1) * (q + 1) <= r * r) by (nonlinear_arith)
            requires 0 <= q + 1 && q + 1 <= r;
        assert(false);
    }
}

/// Every strided square sum is bounded by the number of visited samples times
/// the largest possible square, and is non-negative.
proof fn lemma_strided_sum_bounds(data: Seq<i16>, i: int)
    requires
        0 <= i,
    ensures
        0 <= strided_square_sum_from(data, i),
        strided_square_sum_from(data, i) <= strided_count_from(data, i) * (MAX_SAMPLE_SQUARE as int),
        0 <= strided_count_from(data, i),
        RMS_STRIDE as int * strided_count_from(data, i) <= data.len() - i + RMS_STRIDE as int - 1 || strided_count_from(data, i) == 0,
    decreases data.len() + RMS_STRIDE - i,
{
    if i < data.len() {
        lemma_strided_sum_bounds(data, i + RMS_STRIDE as int);
        let s = data[i] as int;
        assert(0 <= s * s <= MAX_SAMPLE_SQUARE as int) by (nonlinear_arith)
            requires -0x8000 <= s <= 0x7fff;
        let c = strided_count_from(data, i + RMS_STRIDE as int);
        assert((1 + c) * (MAX_SAMPLE_SQUARE as int) == MAX_SAMPLE_SQUARE as int + c * (MAX_SAMPLE_SQUARE as int)) by (nonlinear_arith);
    }
}

/// The element-wise views of a sequence of sample vectors.
pub open spec fn chunk_views(s: Seq<Vec<i16>>) -> Seq<Seq<i16>> {
    Seq::new(s.len(), |i: int| s[i]@)
}

/// A chunk is loud enough to start (or resume) speech at `threshold`:
/// its mean square exceeds the squared threshold, i.e. its RMS exceeds
/// the threshold in exact arithmetic.
pub open spec fn chunk_exceeds(chunk: Seq<i16>, threshold: int) -> bool {
    mean_square(chunk) > threshold * threshold
}

/// A chunk is quiet enough to end speech at `threshold`.
pub open spec fn chunk_below(chunk: Seq<i16>, threshold: int) -> bool {
    mean_square(chunk) < threshold * threshold
}

/// Wall-clock time elapsed since `start`; a clock that moved backwards
/// counts as no time elapsed.
pub open spec fn elapsed_since(now: int, start: int) -> int {
    if now >= start {
        now - start
    } else {
        0
    }
}

/// States of the voice-activity gate.
#[derive(Clone, Copy, Debug, PartialEq, Eq, Structural)]
pub enum GateState {
    /// Silence: chunks are buffered into the pre-roll FIFO, nothing is emitted.
    Idle,
    /// Speech: every chunk is emitted.
    Speech,
    /// Grace period after speech fell quiet: chunks are still emitted until
    /// the hangover duration has elapsed.
    Hangover,
}

/// Mathematical model of a [`VadGate`].
#[verifier::ext_equal]
pub ghost struct GateModel {
    pub state: GateState,
    pub start_threshold: int,
    pub end_threshold: int,
    pub hangover_duration_ms: int,
    pub max_preroll_chunks: int,
    pub hangover_start_time: int,
    pub preroll: Seq<Seq<i16>>,
}

/// Result of one gate transition: the successor model and the chunks emitted.
#[verifier::ext_equal]
pub ghost struct GateStep {
    pub model: GateModel,
    pub emitted: Seq<Seq<i16>>,
}

/// Append a chunk to the pre-roll FIFO, evicting the oldest entry if the
/// FIFO would exceed `max`.
pub open spec fn preroll_push(buf: Seq<Seq<i16>>, chunk: Seq<i16>, max: int) -> Seq<Seq<i16>> {
    let b = buf.push(chunk);
    if b.len() > max {
        b.subrange(1, b.len() as int)
    } else {
        b
    }
}

/// The voice-activity gate's transition table: total and deterministic in the current model,
/// the chunk contents, and the wall-clock time of arrival.
pub open spec fn gate_step(m: GateModel, chunk: Seq<i16>, now: int) -> GateStep {
    match m.state {
        GateState::Idle => {
            if chunk_exceeds(chunk, m.start_threshold) {
                // Trigger: flush the pre-roll (oldest first), then this chunk.
                GateStep {
                    model: GateModel { state: GateState::Speech, preroll: Seq::empty(), ..m },
                    emitted: m.preroll.push(chunk),
                }
            } else {
                GateStep {
                    model: GateModel {
                        preroll: preroll_push(m.preroll, chunk, m.max_preroll_chunks),
                        ..m
                    },
                    emitted: Seq::empty(),
                }
            }
        },
        GateState::Speech => {
            if chunk_below(chunk, m.end_threshold) {
                // Hysteresis: enter the hangover grace period, still emitting.
                GateStep {
                    model: GateModel {
                        state: GateState::Hangover,
                        hangover_start_time: now,
                        ..m
                    },
                    emitted: seq![chunk],
                }
            } else {
                GateStep { model: m, emitted: seq![chunk] }
            }
        },
        GateState::Hangover => {
            if chunk_exceeds(chunk, m.start_threshold) {
                GateStep { model: GateModel { state: GateState::Speech, ..m }, emitted: seq![chunk] }
            } else if elapsed_since(now, m.hangover_start_time) > m.hangover_duration_ms {
                // Back to silence: the transitioning chunk is not emitted; it
                // seeds the pre-roll so the next utterance's onset is kept.
                GateStep {
                    model: GateModel {
                        state: GateState::Idle,
                        preroll: preroll_push(m.preroll, chunk, m.max_preroll_chunks),
                        ..m
                    },
                    emitted: Seq::empty(),
                }
            } else {
                GateStep { model: m, emitted: seq![chunk] }
            }
        },
    }
}

/// Well-formedness of a gate model: hysteresis (end threshold strictly below
/// the start threshold), a start threshold no larger than any possible RMS
/// bound, a bounded pre-roll FIFO, and an empty FIFO outside `Idle`.
pub open spec fn wf_model(m: GateModel) -> bool {
    &&& 0 < m.start_threshold <= 0xffff
    &&& 0 <= m.end_threshold < m.start_threshold
    &&& 0 <= m.hangover_duration_ms
    &&& 0 <= m.max_preroll_chunks
    &&& m.preroll.len() <= m.max_preroll_chunks
    &&& (m.state != GateState::Idle ==> m.preroll.len() == 0)
}

/// The model after a reset: forced to `Idle` with an empty pre-roll FIFO;
/// configuration and the stale hangover entry time are kept.
pub open spec fn reset_model(m: GateModel) -> GateModel {
    GateModel { state: GateState::Idle, preroll: Seq::empty(), ..m }
}

/// Folding the transition table over a sequence of `(chunk, arrival time)`
/// inputs: the final model and everything emitted along the way, in order.
pub open spec fn gate_run(m: GateModel, inputs: Seq<(Seq<i16>, int)>) -> GateStep
    decreases inputs.len()
{
    if inputs.len() == 0 {
        GateStep { model: m, emitted: Seq::empty() }
    } else {
        let first = gate_step(m, inputs[0].0, inputs[0].1);
        let rest = gate_run(first.model, inputs.subrange(1, inputs.len() as int));
        GateStep { model: rest.model, emitted: first.emitted + rest.emitted }
    }
}

/// One transition preserves well-formedness; in particular the pre-roll FIFO
/// stays within its capacity, and the configuration is untouched.
pub proof fn lemma_step_preserves_wf(m: GateModel, chunk: Seq<i16>, now: int)
    requires
        wf_model(m),
    ensures
        wf_model(gate_step(m, chunk, now).model),
        gate_step(m, chunk, now).model.preroll.len() <= m.max_preroll_chunks,
        gate_step(m, chunk, now).model.start_threshold == m.start_threshold,
        gate_step(m, chunk, now).model.end_threshold == m.end_threshold,
        gate_step(m, chunk, now).model.hangover_duration_ms == m.hangover_duration_ms,
        gate_step(m, chunk, now).model.max_preroll_chunks == m.max_preroll_chunks,
{
    let b = m.preroll.push(chunk);
    assert(preroll_push(m.preroll, chunk, m.max_preroll_chunks).len() <= m.max_preroll_chunks);
}

/// At every point of a run from a well-formed gate, the pre-roll FIFO holds at
/// most its configured capacity of chunks: well-formedness is an invariant of
/// whole runs, not only of single steps.
pub proof fn lemma_run_preroll_bounded(m: GateModel, inputs: Seq<(Seq<i16>, int)>)
    requires
        wf_model(m),
    ensures
        wf_model(gate_run(m, inputs).model),
        gate_run(m, inputs).model.preroll.len() <= m.max_preroll_chunks,
        gate_run(m, inputs).model.max_preroll_chunks == m.max_preroll_chunks,
    decreases inputs.len(),
{
    if inputs.len() > 0 {
        lemma_step_preserves_wf(m, inputs[0].0, inputs[0].1);
        lemma_run_preroll_bounded(
            gate_step(m, inputs[0].0, inputs[0].1).model,
            inputs.subrange(1, inputs.len() as int),
        );
    }
}

/// At every point in time of a run from a well-formed gate — that is, after
/// every prefix of the inputs — the pre-roll FIFO holds at most its
/// configured capacity of chunks.
pub proof fn lemma_preroll_bounded_at_every_point(m: GateModel, inputs: Seq<(Seq<i16>, int)>)
    requires
        wf_model(m),
    ensures
        forall|k: int| 0 <= k <= inputs.len()
            ==> #[trigger] gate_run(m, inputs.subrange(0, k)).model.preroll.len()
                <= m.max_preroll_chunks,
{
    assert forall|k: int| 0 <= k <= inputs.len()
        implies #[trigger] gate_run(m, inputs.subrange(0, k)).model.preroll.len()
            <= m.max_preroll_chunks by {
        lemma_run_preroll_bounded(m, inputs.subrange(0, k));
    }
}

/// Two gate models that cannot be told apart by feeding chunks: equal but for
/// the hangover entry time, which matters only while in `Hangover`.
pub open spec fn obs_equiv(m1: GateModel, m2: GateModel) -> bool {
    &&& m1.state == m2.state
    &&& m1.start_threshold == m2.start_threshold
    &&& m1.end_threshold == m2.end_threshold
    &&& m1.hangover_duration_ms == m2.hangover_duration_ms
    &&& m1.max_preroll_chunks == m2.max_preroll_chunks
    &&& m1.preroll == m2.preroll
    &&& (m1.state == GateState::Hangover ==> m1.hangover_start_time == m2.hangover_start_time)
}

/// One step keeps observationally equivalent models equivalent and emits the
/// same chunks from both.
pub proof fn lemma_step_equiv(m1: GateModel, m2: GateModel, chunk: Seq<i16>, now: int)
    requires
        obs_equiv(m1, m2),
    ensures
        obs_equiv(gate_step(m1, chunk, now).model, gate_step(m2, chunk, now).model),
        gate_step(m1, chunk, now).emitted == gate_step(m2, chunk, now).emitted,
{
}

/// Equivalent models emit identical output over any shared input run.
pub proof fn lemma_run_equiv(m1: GateModel, m2: GateModel, inputs: Seq<(Seq<i16>, int)>)
    requires
        obs_equiv(m1, m2),
    ensures
        obs_equiv(gate_run(m1, inputs).model, gate_run(m2, inputs).model),
        gate_run(m1, inputs).emitted == gate_run(m2, inputs).emitted,
    decreases inputs.len(),
{
    if inputs.len() > 0 {
        lemma_step_equiv(m1, m2, inputs[0].0, inputs[0].1);
        lemma_run_equiv(
            gate_step(m1, inputs[0].0, inputs[0].1).model,
            gate_step(m2, inputs[0].0, inputs[0].1).model,
            inputs.subrange(1, inputs.len() as int),
        );
    }
}

/// The voice-activity gate is deterministic: after a reset, two gates with the same
/// configuration emit identical output for an identical sequence of
/// `(chunk, arrival time)` inputs, whatever states they were in before.
pub proof fn lemma_gate_deterministic(m1: GateModel, m2: GateModel, inputs: Seq<(Seq<i16>, int)>)
    requires
        m1.start_threshold == m2.start_threshold,
        m1.end_threshold == m2.end_threshold,
        m1.hangover_duration_ms == m2.hangover_duration_ms,
        m1.max_preroll_chunks == m2.max_preroll_chunks,
    ensures
        gate_run(reset_model(m1), inputs).emitted == gate_run(reset_model(m2), inputs).emitted,
{
    lemma_run_equiv(reset_model(m1), reset_model(m2), inputs);
}

/// The hangover boundary: a quiet chunk arriving in `Hangover` is still
/// emitted while the elapsed wall-clock time is within the hangover duration;
/// the first chunk strictly past it is not emitted, and instead seeds the
/// now-empty pre-roll FIFO of the `Idle` gate.
pub proof fn lemma_hangover_boundary(m: GateModel, chunk: Seq<i16>, now: int)
    requires
        wf_model(m),
        m.state == GateState::Hangover,
        m.max_preroll_chunks >= 1,
        !chunk_exceeds(chunk, m.start_threshold),
    ensures
        elapsed_since(now, m.hangover_start_time) > m.hangover_duration_ms ==> {
            &&& gate_step(m, chunk, now).emitted == Seq::<Seq<i16>>::empty()
            &&& gate_step(m, chunk, now).model.state == GateState::Idle
            &&& gate_step(m, chunk, now).model.preroll == seq![chunk]
        },
        elapsed_since(now, m.hangover_start_time) <= m.hangover_duration_ms ==> {
            &&& gate_step(m, chunk, now).emitted == seq![chunk]
            &&& gate_step(m, chunk, now).model.state == GateState::Hangover
        },
{
    if elapsed_since(now, m.hangover_start_time) > m.hangover_duration_ms {
        assert(preroll_push(m.preroll, chunk, m.max_preroll_chunks) =~~= seq![chunk]);
    }
}

/// Strided square sums of an all-zero chunk vanish.
proof fn lemma_strided_zero(data: Seq<i16>, i: int)
    requires
        0 <= i,
        forall|j: int| 0 <= j < data.len() ==> data[j] == 0,
    ensures
        strided_square_sum_from(data, i) == 0,
    decreases data.len() + RMS_STRIDE - i,
{
    if i < data.len() {
        lemma_strided_zero(data, i + RMS_STRIDE as int);
    }
}

/// The RMS of an all-zero chunk is 0.
pub proof fn lemma_rms_zero_chunk(data: Seq<i16>)
    requires
        forall|j: int| 0 <= j < data.len() ==> data[j] == 0,
    ensures
        mean_square(data) == 0,
        rms_of(data) == 0,
{
    lemma_strided_zero(data, 0);
}

/// A freshly configured gate model: idle, with an empty pre-roll FIFO.
pub open spec fn fresh_gate(start: int, end: int, hangover_ms: int, max_preroll: int) -> GateModel {
    GateModel {
        state: GateState::Idle,
        start_threshold: start,
        end_threshold: end,
        hangover_duration_ms: hangover_ms,
        max_preroll_chunks: max_preroll,
        hangover_start_time: 0,
        preroll: Seq::empty(),
    }
}

/// Integer square root of a mean square, by binary search.
fn isqrt_u64(n: u64) -> (r: u64)
    requires
        n <= MAX_SAMPLE_SQUARE,
    ensures
        is_isqrt(n as int, r as int),
        r == isqrt_spec(n as int),
{
    let mut lo: u64 = 0;
    let mut hi: u64 = 0x8001;
    assert(0x8001int * 0x8001int > MAX_SAMPLE_SQUARE as int);
    while lo + 1 < hi
        invariant
            lo < hi <= 0x8001,
            lo as int * lo as int <= n as int,
            (n as int) < hi as int * hi as int,
        decreases hi - lo,
    {
        let mid: u64 = lo + (hi - lo) / 2;
        assert(mid as int * mid as int <= 0x8001 * 0x8001) by (nonlinear_arith)
            requires 0 <= mid <= 0x8001;
        if mid * mid <= n {
            lo = mid;
        } else {
            hi = mid;
        }
    }
    proof {
        lemma_isqrt_unique(n as int, lo as int);
    }
    lo
}

/// Mean of squares of every `RMS_STRIDE`-th sample, in integer arithmetic.
fn mean_square_of(data: &Vec<i16>) -> (r: u64)
    ensures
        r as int == mean_square(data@),
        r <= MAX_SAMPLE_SQUARE,
{
    proof {
        lemma_strided_sum_bounds(data@, 0);
    }
    if data.len() == 0 {
        return 0;
    }
    let mut i: usize = 0;
    let mut sum: u128 = 0;
    let mut count: u64 = 0;
    while i < data.len()
        invariant
            0 <= i <= data@.len(),
            data@.len() > 0,
            sum as int + strided_square_sum_from(data@, i as int) == strided_square_sum_from(data@, 0),
            count as int + strided_count_from(data@, i as int) == strided_count_from(data@, 0),
            sum as int <= count as int * (MAX_SAMPLE_SQUARE as int),
            0 <= strided_count_from(data@, i as int),
            RMS_STRIDE as int * strided_count_from(data@, 0) <= data@.len() + RMS_STRIDE as int - 1,
        decreases data@.len() - i,
    {
        let s: i16 = data[i];
        proof {
            assert(0 <= (s as int) * (s as int) <= MAX_SAMPLE_SQUARE as int) by (nonlinear_arith)
                requires -0x8000 <= s as int <= 0x7fff;
            lemma_strided_sum_bounds(data@, i as int + RMS_STRIDE as int);
            assert((count as int + 1) * (MAX_SAMPLE_SQUARE as int)
                == count as int * (MAX_SAMPLE_SQUARE as int) + MAX_SAMPLE_SQUARE as int)
                by (nonlinear_arith);
            lemma_mul_inequality(count as int, 0x2000_0000_0000_0000, MAX_SAMPLE_SQUARE as int);
        }
        let sq: u64 = (s as i64 * s as i64) as u64;
        sum = sum + sq as u128;
        count = count + 1;
        if data.len() - i > RMS_STRIDE {
            i = i + RMS_STRIDE;
        } else {
            i = data.len();
        }
    }
    proof {
        assert(strided_square_sum_from(data@, i as int) == 0);
        assert(strided_count_from(data@, i as int) == 0);
        assert(strided_count_from(data@, 0) == 1 + strided_count_from(data@, RMS_STRIDE as int));
        lemma_strided_sum_bounds(data@, RMS_STRIDE as int);
        assert(count >= 1);
        lemma_div_is_ordered(
            sum as int,
            count as int * (MAX_SAMPLE_SQUARE as int),
            count as int,
        );
        lemma_div_multiples_vanish(MAX_SAMPLE_SQUARE as int, count as int);
        assert(count as int * (MAX_SAMPLE_SQUARE as int) == (count as int) * (MAX_SAMPLE_SQUARE as int));
        assert((count as int * (MAX_SAMPLE_SQUARE as int)) / (count as int) == MAX_SAMPLE_SQUARE as int);
    }
    let mean: u128 = sum / (count as u128);
    mean as u64
}

/// A voice-activity gate with hysteresis, a wall-clock hangover period, and a
/// bounded pre-roll FIFO of the most recent silent chunks.
pub struct VadGate {
    state: GateState,
    start_threshold: u64,
    end_threshold: u64,
    hangover_duration_ms: u64,
    max_preroll_chunks: usize,
    hangover_start_time: u64,
    preroll_buffer: std::collections::VecDeque<Vec<i16>>,
    /// Sub-sampled RMS of the most recently processed chunk (diagnostic).
    pub last_rms: u64,
}

impl View for VadGate {
    type V = GateModel;

    closed spec fn view(&self) -> GateModel {
        GateModel {
            state: self.state,
            start_threshold: self.start_threshold as int,
            end_threshold: self.end_threshold as int,
            hangover_duration_ms: self.hangover_duration_ms as int,
            max_preroll_chunks: self.max_preroll_chunks as int,
            hangover_start_time: self.hangover_start_time as int,
            preroll: chunk_views(self.preroll_buffer@),
        }
    }
}

impl VadGate {
    /// The voice-activity gate is well-formed: see [`wf_model`].
    pub open spec fn wf(&self) -> bool {
        wf_model(self@)
    }

    /// Spec view of the diagnostic `last_rms` field.
    pub closed spec fn spec_last_rms(&self) -> int {
        self.last_rms as int
    }

    /// A gate with the default thresholds and pre-roll depth.
    pub fn new() -> (g: VadGate)
        ensures
            g@ == fresh_gate(
                crate::VAD_START_RMS as int,
                crate::VAD_END_RMS as int,
                crate::VAD_HANGOVER_MS as int,
                crate::VAD_PREROLL_CHUNKS as int,
            ),
            g.wf(),
            g.spec_last_rms() == 0,
    {
        Self::new_with_config(crate::VAD_PREROLL_CHUNKS)
    }

    /// A gate with the default thresholds and a caller-chosen pre-roll depth
    /// (system audio keeps a deeper pre-roll than a microphone).
    pub fn new_with_config(max_preroll_chunks: usize) -> (g: VadGate)
        ensures
            g@ == fresh_gate(
                crate::VAD_START_RMS as int,
                crate::VAD_END_RMS as int,
                crate::VAD_HANGOVER_MS as int,
                max_preroll_chunks as int,
            ),
            g.wf(),
            g.spec_last_rms() == 0,
    {
        let g = VadGate {
            state: GateState::Idle,
            start_threshold: crate::VAD_START_RMS,
            end_threshold: crate::VAD_END_RMS,
            hangover_duration_ms: crate::VAD_HANGOVER_MS,
            max_preroll_chunks,
            hangover_start_time: 0,
            preroll_buffer: std::collections::VecDeque::new(),
            last_rms: 0,
        };
        proof {
            assert(g@ =~~= fresh_gate(
                crate::VAD_START_RMS as int,
                crate::VAD_END_RMS as int,
                crate::VAD_HANGOVER_MS as int,
                max_preroll_chunks as int,
            ));
        }
        g
    }

    /// Current gate state.
    pub fn current_state(&self) -> (s: GateState)
        ensures
            s == self@.state,
    {
        self.state
    }

    /// How many chunks the pre-roll FIFO currently holds.
    pub fn preroll_len(&self) -> (n: usize)
        ensures
            n as int == self@.preroll.len(),
    {
        self.preroll_buffer.len()
    }

    /// Sub-sampled RMS of a chunk: the integer square root of the mean of
    /// squares of every `RMS_STRIDE`-th sample. Depends on the chunk contents
    /// alone; an empty chunk has RMS 0.
    pub fn calculate_rms(&self, data: &Vec<i16>) -> (r: u64)
        ensures
            r as int == rms_of(data@),
            is_isqrt(mean_square(data@), r as int),
            data@.len() == 0 ==> r == 0,
    {
        let mean = mean_square_of(data);
        let r = isqrt_u64(mean);
        proof {
            if data@.len() == 0 {
                assert(strided_count_from(data@, 0) == 0);
            }
        }
        r
    }

    /// Force the voice-activity gate back to `Idle` and clear the pre-roll
    /// FIFO, as done when a stream is explicitly stopped or restarted.
    pub fn reset(&mut self)
        ensures
            final(self)@ == reset_model(old(self)@),
            old(self).wf() ==> final(self).wf(),
            final(self).spec_last_rms() == old(self).spec_last_rms(),
    {
        self.state = GateState::Idle;
        self.preroll_buffer.clear();
        proof {
            assert(self@ =~~= reset_model(old(self)@));
        }
    }

    /// Push a chunk into the pre-roll FIFO, evicting the oldest entry when the
    /// FIFO would exceed its capacity.
    fn buffer_chunk(&mut self, chunk: Vec<i16>)
        ensures
            final(self)@ == (GateModel {
                preroll: preroll_push(
                    old(self)@.preroll,
                    chunk@,
                    old(self)@.max_preroll_chunks,
                ),
                ..old(self)@
            }),
            final(self).last_rms == old(self).last_rms,
    {
        self.preroll_buffer.push_back(chunk);
        if self.preroll_buffer.len() > self.max_preroll_chunks {
            let _ = self.preroll_buffer.pop_front();
        }
        proof {
            assert(chunk_views(self.preroll_buffer@) =~~= preroll_push(
                old(self)@.preroll,
                chunk@,
                old(self)@.max_preroll_chunks,
            ));
            assert(self@ =~~= (GateModel {
                preroll: preroll_push(
                    old(self)@.preroll,
                    chunk@,
                    old(self)@.max_preroll_chunks,
                ),
                ..old(self)@
            }));
        }
    }

    /// Move every pre-roll chunk, oldest first, onto the end of `out`.
    fn flush_preroll(&mut self, out: &mut Vec<Vec<i16>>)
        ensures
            final(self)@ == (GateModel { preroll: Seq::empty(), ..old(self)@ }),
            final(self).spec_last_rms() == old(self).spec_last_rms(),
            chunk_views(final(out)@) == chunk_views(old(out)@) + old(self)@.preroll,
    {
        let ghost pre = self@.preroll;
        let ghost len0 = out@.len() as int;
        let ghost out0 = chunk_views(out@);
        let n = self.preroll_buffer.len();
        let mut k: usize = 0;
        while k < n
            invariant
                0 <= k <= n,
                0 <= len0,
                n as int == pre.len(),
                self.preroll_buffer@.len() == n - k,
                forall|j: int| 0 <= j < n - k ==> #[trigger] self.preroll_buffer@[j]@ == pre[k + j],
                out@.len() == len0 + k,
                forall|j: int| 0 <= j < len0 ==> #[trigger] out@[j]@ == out0[j],
                forall|j: int| 0 <= j < k ==> #[trigger] out@[len0 + j]@ == pre[j],
                self.state == old(self).state,
                self.start_threshold == old(self).start_threshold,
                self.end_threshold == old(self).end_threshold,
                self.hangover_duration_ms == old(self).hangover_duration_ms,
                self.max_preroll_chunks == old(self).max_preroll_chunks,
                self.hangover_start_time == old(self).hangover_start_time,
                self.last_rms == old(self).last_rms,
            decreases n - k,
        {
            proof {
                assert(self.preroll_buffer@[0]@ == pre[k as int + 0]);
            }
            let ghost out_in = out@;
            let c = self.preroll_buffer.pop_front();
            let cv = c.unwrap();
            proof {
                assert(cv@ == pre[k as int]);
            }
            out.push(cv);
            proof {
                assert(out@ == out_in.push(cv));
                assert forall|j: int| 0 <= j < k as int + 1 implies out@[len0 + j]@ == pre[j] by {
                    if j < k as int {
                        assert(out@[len0 + j] == out_in[len0 + j]);
                        assert(out_in[len0 + j]@ == pre[j]);
                    } else {
                        assert(out@[len0 + j] == cv);
                    }
                }
            }
            k = k + 1;
        }
        proof {
            assert(self@ =~~= (GateModel { preroll: Seq::empty(), ..old(self)@ }));
            assert forall|i: int| 0 <= i < len0 + pre.len()
                implies #[trigger] chunk_views(out@)[i] == (out0 + pre)[i] by {
                if i < len0 {
                    assert(out@[i]@ == out0[i]);
                } else {
                    let j = i - len0;
                    assert(out@[len0 + j]@ == pre[j]);
                }
            }
            assert(chunk_views(out@) =~~= out0 + pre);
        }
    }

    /// Feed one chunk through the voice-activity gate at wall-clock time `now_ms` and return
    /// the chunks to forward downstream, in order. The transition taken, the
    /// successor state, and the emitted chunks are exactly [`gate_step`] of
    /// the previous state, the chunk contents, and `now_ms`.
    pub fn process(&mut self, chunk: Vec<i16>, now_ms: u64) -> (out: Vec<Vec<i16>>)
        requires
            old(self).wf(),
        ensures
            final(self).wf(),
            ({
                let step = gate_step(old(self)@, chunk@, now_ms as int);
                &&& final(self)@ == step.model
                &&& chunk_views(out@) == step.emitted
            }),
            final(self).spec_last_rms() == rms_of(chunk@),
    {
        let ghost m = self@;
        let mean = mean_square_of(&chunk);
        self.last_rms = isqrt_u64(mean);
        proof {
            assert(self@ =~~= m);
            let st: int = self.start_threshold as int;
            let et: int = self.end_threshold as int;
            assert(st * st < 0x1_0000_0000) by (nonlinear_arith)
                requires 0 <= st <= 0xffff;
            assert(et * et < 0x1_0000_0000) by (nonlinear_arith)
                requires 0 <= et <= 0xffff;
        }
        let mut out: Vec<Vec<i16>> = Vec::new();
        match self.state {
            GateState::Idle => {
                if mean > self.start_threshold * self.start_threshold {
                    // Trigger: emit the pre-roll (oldest first), then this chunk.
                    self.flush_preroll(&mut out);
                    out.push(chunk);
                    self.state = GateState::Speech;
                    proof {
                        assert(self@ =~~= gate_step(m, chunk@, now_ms as int).model);
                        assert(chunk_views(out@) =~~= gate_step(m, chunk@, now_ms as int).emitted);
                    }
                } else {
                    self.buffer_chunk(chunk);
                    proof {
                        assert(self@ =~~= gate_step(m, chunk@, now_ms as int).model);
                        assert(chunk_views(out@) =~~= gate_step(m, chunk@, now_ms as int).emitted);
                    }
                }
            },
            GateState::Speech => {
                if mean < self.end_threshold * self.end_threshold {
                    self.state = GateState::Hangover;
                    self.hangover_start_time = now_ms;
                }
                out.push(chunk);
                proof {
                    assert(self@ =~~= gate_step(m, chunk@, now_ms as int).model);
                    assert(chunk_views(out@) =~~= gate_step(m, chunk@, now_ms as int).emitted);
                }
            },
            GateState::Hangover => {
                if mean > self.start_threshold * self.start_threshold {
                    self.state = GateState::Speech;
                    out.push(chunk);
                    proof {
                        assert(self@ =~~= gate_step(m, chunk@, now_ms as int).model);
                        assert(chunk_views(out@) =~~= gate_step(m, chunk@, now_ms as int).emitted);
                    }
                } else {
                    let elapsed: u64 = if now_ms >= self.hangover_start_time {
                        now_ms - self.hangover_start_time
                    } else {
                        0
                    };
                    if elapsed > self.hangover_duration_ms {
                        // The transitioning chunk is not emitted: it seeds the
                        // pre-roll so the next utterance's onset is kept.
                        self.state = GateState::Idle;
                        self.buffer_chunk(chunk);
                        proof {
                            assert(self@ =~~= gate_step(m, chunk@, now_ms as int).model);
                            assert(chunk_views(out@) =~~= gate_step(m, chunk@, now_ms as int).emitted);
                        }
                    } else {
                        out.push(chunk);
                        proof {
                            assert(self@ =~~= gate_step(m, chunk@, now_ms as int).model);
                            assert(chunk_views(out@) =~~= gate_step(m, chunk@, now_ms as int).emitted);
                        }
                    }
                }
            },
        }
        out
    }
}

} // verus!
