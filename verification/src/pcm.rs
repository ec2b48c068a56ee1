//! Byte-level PCM helpers: the little-endian wire encoding of 16-bit samples
//! handed downstream, and the grouping of raw capture bytes into whole 32-bit
//! sample frames.

use vstd::prelude::*;

verus! {

/// Low byte of a sample's two-byte little-endian encoding.
pub open spec fn le_low_byte(s: i16) -> u8 {
    (s as u16 % 256) as u8
}

/// High byte of a sample's two-byte little-endian encoding.
pub open spec fn le_high_byte(s: i16) -> u8 {
    (s as u16 / 256) as u8
}

/// The little-endian byte stream of a sequence of samples: two bytes per
/// sample, low byte first.
pub open spec fn le_bytes_of(s: Seq<i16>) -> Seq<u8> {
    Seq::new(
        2 * s.len(),
        |i: int|
            if i % 2 == 0 {
                le_low_byte(s[i / 2])
            } else {
                le_high_byte(s[i / 2])
            },
    )
}

/// Encode samples as little-endian 16-bit PCM bytes, the format every emitted
/// chunk is delivered in.
pub fn encode_pcm_le(samples: &Vec<i16>) -> (r: Vec<u8>)
    ensures
        r@ == le_bytes_of(samples@),
{
    let n = samples.len();
    let mut r: Vec<u8> = Vec::new();
    let mut j: usize = 0;
    while j < n
        invariant
            0 <= j <= n,
            n == samples@.len(),
            r@.len() == 2 * j,
            forall|i: int| 0 <= i < 2 * j ==> r@[i] == le_bytes_of(samples@)[i],
        decreases n - j,
    {
        let u: u16 = samples[j] as u16;
        let lo: u8 = (u & 0xff) as u8;
        let hi: u8 = (u >> 8) as u8;
        proof {
            assert(u & 0xff == u % 256) by (bit_vector);
            assert(u >> 8 == u / 256) by (bit_vector);
            assert(le_bytes_of(samples@)[2 * j] == le_low_byte(samples@[j as int]));
            assert(le_bytes_of(samples@)[2 * j + 1] == le_high_byte(samples@[j as int]));
        }
        r.push(lo);
        r.push(hi);
        j = j + 1;
    }
    proof {
        assert(r@ =~~= le_bytes_of(samples@));
    }
    r
}

/// The complete 4-byte frames at the front of a raw byte stream.
pub open spec fn frames_of(bytes: Seq<u8>) -> Seq<Seq<u8>> {
    Seq::new(bytes.len() / 4, |i: int| bytes.subrange(4 * i, 4 * i + 4))
}

/// Group raw capture bytes into whole 4-byte sample frames, in order.
/// Trailing bytes that do not form a complete frame are discarded, matching
/// the capture loop's read semantics.
pub fn sample_frames(bytes: &Vec<u8>) -> (r: Vec<Vec<u8>>)
    ensures
        r@.len() == bytes@.len() / 4,
        forall|i: int| 0 <= i < r@.len()
            ==> #[trigger] r@[i]@ == bytes@.subrange(4 * i, 4 * i + 4),
{
    let n = bytes.len() / 4;
    proof {
        vstd::arithmetic::div_mod::lemma_fundamental_div_mod(bytes@.len() as int, 4);
    }
    let mut r: Vec<Vec<u8>> = Vec::with_capacity(n);
    let mut i: usize = 0;
    while i < n
        invariant
            0 <= i <= n,
            n == bytes@.len() / 4,
            4 * n <= bytes@.len() <= usize::MAX,
            r@.len() == i,
            forall|k: int| 0 <= k < i
                ==> #[trigger] r@[k]@ == bytes@.subrange(4 * k, 4 * k + 4),
        decreases n - i,
    {
        let base = 4 * i;
        let mut frame: Vec<u8> = Vec::with_capacity(4);
        frame.push(bytes[base]);
        frame.push(bytes[base + 1]);
        frame.push(bytes[base + 2]);
        frame.push(bytes[base + 3]);
        proof {
            assert(frame@ =~~= bytes@.subrange(4 * i as int, 4 * i as int + 4));
        }
        r.push(frame);
        i = i + 1;
    }
    r
}

} // verus!
