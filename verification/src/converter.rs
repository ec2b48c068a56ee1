//! Sample-rate converter: mono 16-bit PCM at an arbitrary input rate to mono
//! 16-bit PCM at the fixed 16 kHz output rate, by zero-order hold in exact
//! integer arithmetic. A single call is a complete, self-contained conversion
//! of exactly the samples given; no state is carried across calls.

use vstd::prelude::*;

verus! {

use crate::AudioError;
use vstd::arithmetic::div_mod::{
    lemma_div_is_ordered,
    lemma_div_pos_is_pos,
    lemma_fundamental_div_mod,
    lemma_fundamental_div_mod_converse,
};
use vstd::arithmetic::mul::{
    lemma_mul_inequality,
    lemma_mul_is_distributive_sub_other_way,
    lemma_mul_nonnegative,
    lemma_mul_upper_bound,
};

/// How many output samples a conversion of `input_len` samples at `rate` Hz
/// produces.
pub open spec fn converted_len(input_len: int, rate: int) -> int {
    input_len * (crate::SAMPLE_RATE as int) / rate
}

/// The input position that output position `j` reads (zero-order hold).
pub open spec fn source_index(j: int, rate: int) -> int {
    j * rate / (crate::SAMPLE_RATE as int)
}

/// Every output position of a conversion reads a valid input position.
pub proof fn lemma_source_index_in_bounds(j: int, input_len: int, rate: int)
    requires
        0 <= j,
        1 <= rate,
        j < converted_len(input_len, rate),
    ensures
        0 <= source_index(j, rate) < input_len,
{
    let s = crate::SAMPLE_RATE as int;
    let q = input_len * s / rate;
    if input_len <= 0 {
        assert(input_len * s <= 0) by (nonlinear_arith)
            requires input_len <= 0 && s > 0;
        lemma_div_is_ordered(input_len * s, 0, rate);
        assert(false);
    }
    // rate * q <= input_len * s
    lemma_fundamental_div_mod(input_len * s, rate);
    assert(rate * q <= input_len * s);
    // j * rate <= (q - 1) * rate == q * rate - rate
    lemma_mul_inequality(j, q - 1, rate);
    lemma_mul_is_distributive_sub_other_way(rate, q, 1);
    assert(j * rate <= input_len * s - rate);
    // divide both sides by s
    lemma_div_is_ordered(j * rate, input_len * s - 1, s);
    lemma_fundamental_div_mod_converse(input_len * s - 1, s, input_len - 1, s - 1);
    assert((input_len * s - 1) / s == input_len - 1);
    lemma_mul_nonnegative(j, rate);
    lemma_div_pos_is_pos(j * rate, s);
}

/// Converts mono PCM sampled at `input_rate` Hz to mono PCM at the fixed
/// 16 kHz output rate.
pub struct SampleRateConverter {
    input_rate: u32,
}

impl SampleRateConverter {
    /// The configured input rate, in hertz.
    pub closed spec fn spec_input_rate(&self) -> int {
        self.input_rate as int
    }

    /// A converter is well-formed when its input rate is a positive frequency.
    pub open spec fn wf(&self) -> bool {
        1 <= self.spec_input_rate()
    }

    /// Build a converter for the given input rate. Construction fails exactly
    /// when the rate is not a positive frequency.
    pub fn new(input_rate: u32) -> (r: Result<SampleRateConverter, AudioError>)
        ensures
            match r {
                Ok(c) => input_rate >= 1 && c.spec_input_rate() == input_rate && c.wf(),
                Err(e) => input_rate == 0 && e == AudioError::UnsupportedRate,
            },
    {
        if input_rate == 0 {
            Err(AudioError::UnsupportedRate)
        } else {
            Ok(SampleRateConverter { input_rate })
        }
    }

    /// The configured input rate, in hertz.
    pub fn input_rate(&self) -> (r: u32)
        ensures
            r as int == self.spec_input_rate(),
    {
        self.input_rate
    }

    /// Convert one buffer of samples. Succeeds for every input whose converted
    /// length fits in a `Vec`; the output length is exactly
    /// `⌊input_len · 16000 / input_rate⌋`, and output position `j` holds the
    /// input sample at position `⌊j · input_rate / 16000⌋`. Deterministic in
    /// the input contents; never silently truncates.
    pub fn convert(&self, samples: &Vec<i16>) -> (r: Result<Vec<i16>, AudioError>)
        requires
            self.wf(),
        ensures
            match r {
                Ok(out) => {
                    &&& converted_len(samples@.len() as int, self.spec_input_rate())
                        <= usize::MAX as int
                    &&& out@.len() == converted_len(samples@.len() as int, self.spec_input_rate())
                    &&& forall|j: int| 0 <= j < out@.len()
                        ==> out@[j] == samples@[source_index(j, self.spec_input_rate())]
                },
                Err(e) => {
                    &&& e == AudioError::OutputTooLarge
                    &&& converted_len(samples@.len() as int, self.spec_input_rate())
                        > usize::MAX as int
                },
            },
    {
        let len128: u128 = samples.len() as u128;
        let rate128: u128 = self.input_rate as u128;
        let out_len128: u128 = len128 * (crate::SAMPLE_RATE as u128) / rate128;
        if out_len128 > usize::MAX as u128 {
            return Err(AudioError::OutputTooLarge);
        }
        let out_len: usize = out_len128 as usize;
        let mut out: Vec<i16> = Vec::with_capacity(out_len);
        let mut j: usize = 0;
        while j < out_len
            invariant
                0 <= j <= out_len,
                samples@.len() <= usize::MAX,
                rate128 == self.spec_input_rate(),
                1 <= rate128 <= u32::MAX,
                out_len as int == converted_len(samples@.len() as int, self.spec_input_rate()),
                out@.len() == j,
                forall|i: int| 0 <= i < j
                    ==> out@[i] == samples@[source_index(i, self.spec_input_rate())],
            decreases out_len - j,
        {
            proof {
                lemma_source_index_in_bounds(
                    j as int,
                    samples@.len() as int,
                    self.spec_input_rate(),
                );
                lemma_mul_upper_bound(
                    j as int,
                    usize::MAX as int,
                    rate128 as int,
                    u32::MAX as int,
                );
            }
            let src128: u128 = (j as u128) * rate128 / (crate::SAMPLE_RATE as u128);
            proof {
                assert(src128 as int == source_index(j as int, self.spec_input_rate()));
                assert((src128 as int) < samples@.len());
            }
            let src: usize = src128 as usize;
            out.push(samples[src]);
            proof {
                assert(out@[j as int]
                    == samples@[source_index(j as int, self.spec_input_rate())]);
            }
            j = j + 1;
        }
        Ok(out)
    }
}

/// Converting silence yields silence: an all-zero input produces an all-zero
/// output of exactly the converted length (the round trip of a silent signal
/// through the converter stays silent).
pub proof fn lemma_convert_silence(input: Seq<i16>, out: Seq<i16>, rate: int)
    requires
        1 <= rate,
        out.len() == converted_len(input.len() as int, rate),
        forall|j: int| 0 <= j < out.len() ==> out[j] == input[source_index(j, rate)],
        forall|i: int| 0 <= i < input.len() ==> input[i] == 0,
    ensures
        forall|j: int| 0 <= j < out.len() ==> out[j] == 0,
{
    assert forall|j: int| 0 <= j < out.len() implies out[j] == 0 by {
        lemma_source_index_in_bounds(j, input.len() as int, rate);
    }
}

} // verus!
