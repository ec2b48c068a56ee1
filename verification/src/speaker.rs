//! The system-audio (loopback) capture surface: device-id normalization, the
//! stream handle owning the consuming half of the sample queue, and the
//! negotiated sample rate with its timeout fallback. The platform capture
//! thread itself lives with the host: it feeds the queue's producing half and
//! reports the hardware rate through a one-shot handshake whose outcome is
//! resolved here.

use vstd::prelude::*;

verus! {

use crate::queue::SampleConsumer;

/// The sample rate assumed when initialization fails or the handshake times
/// out: capture then still runs, at the commonest hardware default.
pub const FALLBACK_SAMPLE_RATE: u32 = 44100;

/// Relies on `str`'s `PartialEq`: two string slices are equal exactly when
/// their characters are.
#[verifier::external_body]
fn str_eq(a: &str, b: &str) -> (r: bool)
    ensures
        r == (a@ == b@),
{
    a == b
}

/// A requested device id, normalized: the empty id and `default` both mean
/// "let the OS choose".
pub open spec fn normalized_id(device_id: Option<String>) -> Option<String> {
    match device_id {
        Some(id) => if id@.len() > 0 && id@ != "default"@ {
            Some(id)
        } else {
            None
        },
        None => None,
    }
}

/// The rate a stream runs at, given the handshake's outcome: the reported
/// hardware rate, or the fallback when none arrived.
pub open spec fn resolved_rate(negotiated: Option<u32>) -> u32 {
    match negotiated {
        Some(rate) => rate,
        None => FALLBACK_SAMPLE_RATE,
    }
}

/// A configured request to capture system-output audio from one device.
pub struct SpeakerInput {
    device_id: Option<String>,
}

impl SpeakerInput {
    /// The concrete device the capture thread should look up, if any.
    pub closed spec fn spec_device_id(&self) -> Option<String> {
        self.device_id
    }

    /// Accept a capture request. Never fails: an absent, empty, or `default`
    /// id falls back to the OS default device.
    pub fn new(device_id: Option<String>) -> (r: Result<SpeakerInput, crate::AudioError>)
        ensures
            r is Ok,
            r.unwrap().spec_device_id() == normalized_id(device_id),
    {
        let device_id = match device_id {
            Some(id) => {
                if !id.as_str().is_empty() && !str_eq(id.as_str(), "default") {
                    Some(id)
                } else {
                    None
                }
            },
            None => None,
        };
        Ok(SpeakerInput { device_id })
    }

    /// The concrete device id kept by normalization, handed to the capture
    /// thread for device lookup.
    pub fn device_id(&self) -> (r: &Option<String>)
        ensures
            *r == self.spec_device_id(),
    {
        &self.device_id
    }

    /// Assemble the running stream once the host has spawned the capture
    /// thread: `consumer` is the receiving half of the queue that thread
    /// fills, and `negotiated_rate` is what its initialization handshake
    /// reported (`None` after a failure or timeout).
    pub fn stream(self, consumer: SampleConsumer, negotiated_rate: Option<u32>) -> (s:
        SpeakerStream)
        ensures
            s.spec_sample_rate() == resolved_rate(negotiated_rate),
            s.has_consumer(),
    {
        let actual_sample_rate = match negotiated_rate {
            Some(rate) => rate,
            None => FALLBACK_SAMPLE_RATE,
        };
        SpeakerStream { consumer: Some(consumer), actual_sample_rate }
    }
}

/// A running system-audio capture stream: the queue's consuming half and the
/// actual (negotiated) hardware sample rate.
pub struct SpeakerStream {
    consumer: Option<SampleConsumer>,
    actual_sample_rate: u32,
}

impl SpeakerStream {
    /// The actual hardware sample rate of the captured samples.
    pub closed spec fn spec_sample_rate(&self) -> u32 {
        self.actual_sample_rate
    }

    /// Whether the consuming half is still here (it can be taken once).
    pub closed spec fn has_consumer(&self) -> bool {
        self.consumer is Some
    }

    /// The actual hardware sample rate of the captured samples; the worker
    /// configures its converter with this.
    pub fn sample_rate(&self) -> (r: u32)
        ensures
            r == self.spec_sample_rate(),
    {
        self.actual_sample_rate
    }

    /// Take the consuming half for lock-free reading on the worker thread.
    /// Only the first call returns it; later calls return `None`.
    pub fn take_consumer(&mut self) -> (r: Option<SampleConsumer>)
        ensures
            final(self).spec_sample_rate() == old(self).spec_sample_rate(),
            !final(self).has_consumer(),
            r is Some <==> old(self).has_consumer(),
    {
        self.consumer.take()
    }
}

} // verus!
