//! The bounded sample queue between the capture callback and the worker
//! thread, and the overflow policy applied at its producing end.
//!
//! The queue itself is `ringbuf`'s heap-allocated single-producer /
//! single-consumer ring buffer. Its two halves share state that the other
//! thread mutates concurrently, so no contract here pins what a pop returns
//! or how much a push stores: the verified code around the queue states what
//! holds of every outcome (a drain never exceeds its bound; a push reports
//! how many samples it stored; the overflow monitor's verdict is an exact
//! function of those reports).

use vstd::prelude::*;

verus! {

use ringbuf::traits::{Consumer, Producer, Split};

/// Declared overflow policy of the queue: a push stores what fits and drops
/// the newest remainder; the monitor below tears the stream down after this
/// many consecutive shortfalls.
pub const OVERFLOW_FATAL_AFTER: u32 = 50;

/// After this many consecutive shortfalls a warning is due (once).
pub const OVERFLOW_WARN_AT: u32 = 25;

/// Capacity of the queue between one capture callback and its worker, in
/// samples: enough for about three seconds of 44.1 kHz audio, so a briefly
/// stalled worker loses nothing.
pub const SAMPLE_QUEUE_CAPACITY: usize = 131072;

/// Producing half of a bounded sample queue (held by the capture callback).
#[verifier::external_body]
pub struct SampleProducer {
    inner: ringbuf::HeapProd<i16>,
}

/// Consuming half of a bounded sample queue (held by the worker thread).
#[verifier::external_body]
pub struct SampleConsumer {
    inner: ringbuf::HeapCons<i16>,
}

/// Relies on `ringbuf::HeapRb::new` and `Split::split`: a fixed-capacity
/// single-producer/single-consumer ring buffer, split into its two halves.
/// The capacity must be positive: the ring buffer holds it as a
/// `NonZeroUsize`.
#[verifier::external_body]
fn sample_queue(capacity: usize) -> (r: (SampleProducer, SampleConsumer))
    requires
        capacity >= 1,
{
    let rb = ringbuf::HeapRb::new(capacity);
    let (prod, cons) = rb.split();
    (SampleProducer { inner: prod }, SampleConsumer { inner: cons })
}

impl SampleProducer {
    /// Relies on `ringbuf`'s `Producer::push_slice`: appends a prefix of
    /// `samples` (what fits in the buffer's free space, possibly all or none,
    /// depending on the concurrent consumer) and returns how many samples it
    /// stored.
    #[verifier::external_body]
    fn push_slice(&mut self, samples: &Vec<i16>) -> (stored: usize)
        ensures
            stored <= samples@.len(),
    {
        self.inner.push_slice(samples.as_slice())
    }
}

impl SampleConsumer {
    /// Relies on `ringbuf`'s `Consumer::try_pop`: removes and returns the
    /// eldest buffered sample, or `None` if the buffer looks empty. What it
    /// returns depends on the concurrent producer, so nothing more is
    /// promised of the outcome.
    #[verifier::external_body]
    fn try_pop(&mut self) -> (s: Option<i16>) {
        self.inner.try_pop()
    }

    /// Drain up to `max` buffered samples, oldest first, without blocking.
    /// Returns fewer than `max` samples exactly when the queue ran empty.
    pub fn drain(&mut self, max: usize) -> (chunk: Vec<i16>)
        ensures
            chunk@.len() <= max,
    {
        let mut chunk: Vec<i16> = Vec::new();
        let mut k: usize = 0;
        while k < max
            invariant
                0 <= k <= max,
                chunk@.len() <= k,
            decreases max - k,
        {
            match self.try_pop() {
                Some(s) => chunk.push(s),
                None => {
                    return chunk;
                },
            }
            k = k + 1;
        }
        chunk
    }
}

/// The queue for one capture stream, at the declared capacity.
pub fn capture_queue() -> (r: (SampleProducer, SampleConsumer)) {
    sample_queue(SAMPLE_QUEUE_CAPACITY)
}

/// Verdict of the overflow monitor after one push report.
#[derive(Clone, Copy, Debug, PartialEq, Eq, Structural)]
pub enum PushVerdict {
    /// The push stored everything (or the shortfall streak is still short).
    Healthy,
    /// Exactly `OVERFLOW_WARN_AT` consecutive shortfalls: warn once.
    Warn,
    /// More than `OVERFLOW_FATAL_AFTER` consecutive shortfalls: sustained
    /// processing starvation; the stream must be torn down.
    Fatal,
}

/// The shortfall streak after one report: a full push resets it, a shortfall
/// lengthens it (saturating at the counter's width).
pub open spec fn streak_after(streak: int, stored: int, attempted: int) -> int {
    if stored >= attempted {
        0
    } else if streak < u32::MAX {
        streak + 1
    } else {
        streak
    }
}

/// The verdict pronounced for a given shortfall streak.
pub open spec fn verdict_of(streak: int) -> PushVerdict {
    if streak > OVERFLOW_FATAL_AFTER as int {
        PushVerdict::Fatal
    } else if streak == OVERFLOW_WARN_AT as int {
        PushVerdict::Warn
    } else {
        PushVerdict::Healthy
    }
}

/// Tracks consecutive failed (short) pushes from the capture callback into
/// the queue and decides when sustained overflow becomes fatal.
pub struct OverflowMonitor {
    consecutive_drops: u32,
}

impl OverflowMonitor {
    /// The current shortfall streak.
    pub closed spec fn spec_streak(&self) -> int {
        self.consecutive_drops as int
    }

    /// A fresh monitor: no shortfall seen.
    pub fn new() -> (m: OverflowMonitor)
        ensures
            m.spec_streak() == 0,
    {
        OverflowMonitor { consecutive_drops: 0 }
    }

    /// Record one push: `stored` of `attempted` samples entered the queue.
    /// The verdict is an exact function of the shortfall streak: `Fatal` the
    /// first time the streak exceeds `OVERFLOW_FATAL_AFTER`, and not before.
    pub fn record_push(&mut self, stored: usize, attempted: usize) -> (v: PushVerdict)
        ensures
            final(self).spec_streak() == streak_after(
                old(self).spec_streak(),
                stored as int,
                attempted as int,
            ),
            v == verdict_of(final(self).spec_streak()),
    {
        if stored >= attempted {
            self.consecutive_drops = 0;
        } else if self.consecutive_drops < u32::MAX {
            self.consecutive_drops = self.consecutive_drops + 1;
        }
        if self.consecutive_drops > OVERFLOW_FATAL_AFTER {
            PushVerdict::Fatal
        } else if self.consecutive_drops == OVERFLOW_WARN_AT {
            PushVerdict::Warn
        } else {
            PushVerdict::Healthy
        }
    }
}

/// The capture callback's push step: store what fits of `samples` in the
/// queue and let the monitor judge the outcome. Returns how many samples
/// entered the queue and the verdict, which is `Fatal` exactly when the
/// shortfall streak has just exceeded `OVERFLOW_FATAL_AFTER`.
pub fn push_and_monitor(
    producer: &mut SampleProducer,
    monitor: &mut OverflowMonitor,
    samples: &Vec<i16>,
) -> (r: (usize, PushVerdict))
    ensures
        r.0 <= samples@.len(),
        final(monitor).spec_streak() == streak_after(
            old(monitor).spec_streak(),
            r.0 as int,
            samples@.len() as int,
        ),
        r.1 == verdict_of(final(monitor).spec_streak()),
{
    let stored = producer.push_slice(samples);
    let verdict = monitor.record_push(stored, samples.len());
    (stored, verdict)
}

/// The streak after a run of `k` consecutive shortfalls from a fresh monitor.
pub open spec fn streak_after_run(k: nat) -> int
    decreases k
{
    if k == 0 {
        0
    } else {
        streak_after(streak_after_run((k - 1) as nat), 0, 1)
    }
}

/// The overflow policy trips exactly once, and not early: starting from a
/// fresh monitor, a run of consecutive shortfalls is pronounced `Fatal` for
/// the first time at shortfall number `OVERFLOW_FATAL_AFTER + 1`, and every
/// report before that is not `Fatal`.
pub proof fn lemma_overflow_trips_once(k: nat)
    requires
        1 <= k <= OVERFLOW_FATAL_AFTER + 1,
    ensures
        streak_after_run(k) == k,
        verdict_of(streak_after_run(k)) == PushVerdict::Fatal <==> k == OVERFLOW_FATAL_AFTER + 1,
    decreases k,
{
    if k > 1 {
        lemma_overflow_trips_once((k - 1) as nat);
    } else {
        assert(streak_after_run(0) == 0);
    }
}

} // verus!
