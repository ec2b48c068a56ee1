//! Detecting the hardware sample rate. The capture engine reports its input
//! format only as a printed description, so the rate is recovered from the
//! bytes of that text: the field after `sample_rate: `, up to the next comma,
//! read as a decimal number of whole hertz. A rate that cannot be recovered,
//! or is implausibly low, falls back to 48000 Hz.

use vstd::prelude::*;

verus! {

/// The key whose value holds the rate, as bytes: `sample_rate: `.
pub open spec fn key_byte(k: int) -> u8 {
    if k == 0 {
        115
    } else if k == 1 {
        97
    } else if k == 2 {
        109
    } else if k == 3 {
        112
    } else if k == 4 {
        108
    } else if k == 5 {
        101
    } else if k == 6 {
        95
    } else if k == 7 {
        114
    } else if k == 8 {
        97
    } else if k == 9 {
        116
    } else if k == 10 {
        101
    } else if k == 11 {
        58
    } else {
        32
    }
}

/// Length of the key `sample_rate: `.
pub const KEY_LEN: usize = 13;

/// The key occurs in `hay` at position `i`.
pub open spec fn key_at(hay: Seq<u8>, i: int) -> bool {
    &&& 0 <= i
    &&& i + KEY_LEN <= hay.len()
    &&& forall|k: int| 0 <= k < KEY_LEN ==> hay[i + k] == key_byte(k)
}

/// Position of the first occurrence of the key at or after `i`.
pub open spec fn first_key_from(hay: Seq<u8>, i: int) -> Option<int>
    decreases hay.len() - i + KEY_LEN when 0 <= i
{
    if i + KEY_LEN > hay.len() {
        None
    } else if key_at(hay, i) {
        Some(i)
    } else {
        first_key_from(hay, i + 1)
    }
}

/// Position of the first comma at or after `i`.
pub open spec fn first_comma_from(hay: Seq<u8>, i: int) -> Option<int>
    decreases hay.len() - i + 1 when 0 <= i
{
    if i >= hay.len() {
        None
    } else if hay[i] == 44 {
        Some(i)
    } else {
        first_comma_from(hay, i + 1)
    }
}

/// An ASCII whitespace byte: space, tab, line feed, or carriage return.
pub open spec fn is_space(b: u8) -> bool {
    b == 32 || b == 9 || b == 10 || b == 13
}

/// Strip leading whitespace.
pub open spec fn trim_leading(s: Seq<u8>) -> Seq<u8>
    decreases s.len()
{
    if s.len() > 0 && is_space(s[0]) {
        trim_leading(s.subrange(1, s.len() as int))
    } else {
        s
    }
}

/// Strip trailing whitespace.
pub open spec fn trim_trailing(s: Seq<u8>) -> Seq<u8>
    decreases s.len()
{
    if s.len() > 0 && is_space(s[s.len() - 1]) {
        trim_trailing(s.drop_last())
    } else {
        s
    }
}

/// Is this byte ASCII whitespace?
fn is_space_byte(b: u8) -> (r: bool)
    ensures
        r == is_space(b),
{
    b == 32 || b == 9 || b == 10 || b == 13
}

/// An ASCII decimal digit.
pub open spec fn is_digit(b: u8) -> bool {
    48 <= b <= 57
}

/// How many digits the field starts with.
pub open spec fn digit_count(s: Seq<u8>) -> int
    decreases s.len()
{
    digit_count_from(s, 0)
}

/// How many consecutive digits stand at or after `i`.
pub open spec fn digit_count_from(s: Seq<u8>, i: int) -> int
    decreases s.len() - i + 1 when 0 <= i
{
    if i < s.len() && is_digit(s[i]) {
        1 + digit_count_from(s, i + 1)
    } else {
        0
    }
}

/// The value of a string of digits, most significant first.
pub open spec fn digits_val(s: Seq<u8>) -> int
    decreases s.len()
{
    if s.len() == 0 {
        0
    } else {
        digits_val(s.drop_last()) * 10 + (s.last() - 48)
    }
}

/// After the integer part the field is either over or holds a fraction:
/// a dot followed by digits only.
pub open spec fn fraction_ok(s: Seq<u8>, d: int) -> bool {
    ||| d == s.len()
    ||| (s[d] == 46 && forall|i: int| d < i < s.len() ==> is_digit(#[trigger] s[i]))
}

/// The whole-hertz value of a rate field (spaces already trimmed): one or
/// more digits, optionally followed by a fraction, whose integer part fits
/// in a `u32`. The fractional part is ignored: rates are whole hertz.
pub open spec fn field_value(s: Seq<u8>) -> Option<u32> {
    let d = digit_count(s);
    if d == 0 {
        None
    } else if !fraction_ok(s, d) {
        None
    } else if digits_val(s.subrange(0, d)) > u32::MAX {
        None
    } else {
        Some(digits_val(s.subrange(0, d)) as u32)
    }
}

/// The rate recovered from a format description: the whitespace-trimmed
/// field between the first `sample_rate: ` key and the next comma, read as a
/// decimal.
pub open spec fn parse_rate_spec(hay: Seq<u8>) -> Option<u32> {
    match first_key_from(hay, 0) {
        None => None,
        Some(p) => match first_comma_from(hay, p + KEY_LEN) {
            None => None,
            Some(c) => field_value(
                trim_trailing(trim_leading(hay.subrange(p + KEY_LEN, c))),
            ),
        },
    }
}

/// The `k`-th byte of the key `sample_rate: `.
fn key_byte_at(k: usize) -> (b: u8)
    requires
        k < KEY_LEN,
    ensures
        b == key_byte(k as int),
{
    if k == 0 {
        115
    } else if k == 1 {
        97
    } else if k == 2 {
        109
    } else if k == 3 {
        112
    } else if k == 4 {
        108
    } else if k == 5 {
        101
    } else if k == 6 {
        95
    } else if k == 7 {
        114
    } else if k == 8 {
        97
    } else if k == 9 {
        116
    } else if k == 10 {
        101
    } else if k == 11 {
        58
    } else {
        32
    }
}

/// Does the key stand at position `i` of `hay`?
#[verifier::loop_isolation(false)]
fn key_matches_at(hay: &Vec<u8>, i: usize) -> (r: bool)
    requires
        i + KEY_LEN <= hay@.len(),
    ensures
        r == key_at(hay@, i as int),
{
    proof {
        assert(i + KEY_LEN <= hay.len());
    }
    let mut k: usize = 0;
    while k < KEY_LEN
        invariant
            0 <= k <= KEY_LEN,
            i + KEY_LEN <= hay@.len(),
            forall|j: int| 0 <= j < k ==> hay@[i + j] == key_byte(j),
        decreases KEY_LEN - k,
    {
        if hay[i + k] != key_byte_at(k) {
            return false;
        }
        k = k + 1;
    }
    true
}

/// Position of the first occurrence of the key in `hay`.
#[verifier::loop_isolation(false)]
fn find_key(hay: &Vec<u8>) -> (r: Option<usize>)
    ensures
        match r {
            Some(p) => first_key_from(hay@, 0) == Some(p as int),
            None => first_key_from(hay@, 0) is None,
        },
{
    if hay.len() < KEY_LEN {
        return None;
    }
    let n = hay.len();
    let mut i: usize = 0;
    while i <= n - KEY_LEN
        invariant
            0 <= i,
            n == hay@.len(),
            KEY_LEN <= n,
            i <= n - KEY_LEN + 1,
            first_key_from(hay@, 0) == first_key_from(hay@, i as int),
        decreases hay@.len() - i,
    {
        if key_matches_at(hay, i) {
            return Some(i);
        }
        i = i + 1;
    }
    None
}

/// Position of the first comma at or after `from`.
#[verifier::loop_isolation(false)]
fn find_comma(hay: &Vec<u8>, from: usize) -> (r: Option<usize>)
    requires
        from <= hay@.len(),
    ensures
        match r {
            Some(c) => first_comma_from(hay@, from as int) == Some(c as int)
                && from <= c < hay@.len(),
            None => first_comma_from(hay@, from as int) is None,
        },
{
    let mut i: usize = from;
    while i < hay.len()
        invariant
            from <= i <= hay@.len(),
            first_comma_from(hay@, from as int) == first_comma_from(hay@, i as int),
        decreases hay@.len() - i,
    {
        if hay[i] == 44 {
            return Some(i);
        }
        i = i + 1;
    }
    None
}

/// A found key occurrence lies at or after the search start and is a real
/// occurrence (so in particular it leaves room for the key).
proof fn lemma_first_key_props(hay: Seq<u8>, i: int)
    requires
        0 <= i,
    ensures
        match first_key_from(hay, i) {
            Some(p) => i <= p && key_at(hay, p),
            None => true,
        },
    decreases hay.len() - i + KEY_LEN,
{
    if i + KEY_LEN <= hay.len() && !key_at(hay, i) {
        lemma_first_key_props(hay, i + 1);
    }
}

/// Non-negative, and growing as digits are appended.
proof fn lemma_digits_val_nonneg(s: Seq<u8>)
    requires
        forall|i: int| 0 <= i < s.len() ==> is_digit(#[trigger] s[i]),
    ensures
        digits_val(s) >= 0,
    decreases s.len(),
{
    if s.len() > 0 {
        lemma_digits_val_nonneg(s.drop_last());
    }
}

/// A digit string's value never falls below the value of any of its prefixes.
proof fn lemma_digits_val_prefix(s: Seq<u8>, k: int)
    requires
        0 <= k <= s.len(),
        forall|i: int| 0 <= i < s.len() ==> is_digit(#[trigger] s[i]),
    ensures
        digits_val(s.subrange(0, k)) <= digits_val(s),
    decreases s.len() - k,
{
    if k < s.len() {
        let t = s.subrange(0, k + 1);
        assert(t.drop_last() =~~= s.subrange(0, k));
        lemma_digits_val_nonneg(s.subrange(0, k));
        lemma_digits_val_prefix(s, k + 1);
        assert(s.subrange(0, s.len() as int) =~~= s);
    } else {
        assert(s.subrange(0, s.len() as int) =~~= s);
    }
}

/// Read the rate field of a format description, handed over as its raw bytes.
/// Returns exactly the whole-hertz value that [`parse_rate_spec`] assigns to
/// the bytes, and `None` when no rate field can be recovered.
#[verifier::loop_isolation(false)]
pub fn parse_sample_rate(desc: &Vec<u8>) -> (r: Option<u32>)
    ensures
        r == parse_rate_spec(desc@),
{
    let p = match find_key(desc) {
        Some(p) => p,
        None => {
            return None;
        },
    };
    proof {
        lemma_first_key_props(desc@, 0);
        assert(p + KEY_LEN <= desc.len());
    }
    let start = p + KEY_LEN;
    let c = match find_comma(desc, start) {
        Some(c) => c,
        None => {
            return None;
        },
    };
    // Copy the field out, then trim spaces on both ends.
    let mut field: Vec<u8> = Vec::new();
    let mut k: usize = start;
    while k < c
        invariant
            start <= k <= c,
            c < desc@.len(),
            field@ =~~= desc@.subrange(start as int, k as int),
        decreases c - k,
    {
        field.push(desc[k]);
        proof {
            assert(field@ =~~= desc@.subrange(start as int, k as int + 1));
        }
        k = k + 1;
    }
    let ghost raw_field = desc@.subrange(start as int, c as int);
    while field.len() > 0 && is_space_byte(field[0])
        invariant
            trim_leading(field@) == trim_leading(raw_field),
        decreases field@.len(),
    {
        let ghost f0 = field@;
        let _ = field.remove(0);
        proof {
            assert(field@ =~~= f0.subrange(1, f0.len() as int));
        }
    }
    proof {
        assert(trim_leading(field@) == field@);
    }
    while field.len() > 0 && is_space_byte(field[field.len() - 1])
        invariant
            trim_trailing(field@) == trim_trailing(trim_leading(raw_field)),
        decreases field@.len(),
    {
        let ghost f0 = field@;
        let _ = field.pop();
        proof {
            assert(field@ =~~= f0.drop_last());
        }
    }
    proof {
        assert(trim_trailing(field@) == field@);
    }
    let ghost trimmed = trim_trailing(trim_leading(raw_field));
    // Count the leading digits.
    let mut d: usize = 0;
    while d < field.len() && field[d] >= 48 && field[d] <= 57
        invariant
            0 <= d <= field@.len(),
            field@ == trimmed,
            forall|i: int| 0 <= i < d ==> is_digit(#[trigger] field@[i]),
            digit_count_from(field@, 0) == d + digit_count_from(field@, d as int),
        decreases field@.len() - d,
    {
        d = d + 1;
    }
    proof {
        assert(digit_count_from(field@, d as int) == 0);
        assert(digit_count(field@) == d);
    }
    if d == 0 {
        return None;
    }
    // Whatever follows the integer part must be a dot and digits only.
    if d < field.len() {
        if field[d] != 46 {
            return None;
        }
        let mut q: usize = d + 1;
        while q < field.len()
            invariant
                d < q <= field@.len(),
                field@ == trimmed,
                field@[d as int] == 46,
                forall|i: int| d < i < q ==> is_digit(#[trigger] field@[i]),
            decreases field@.len() - q,
        {
            if field[q] < 48 || field[q] > 57 {
                proof {
                    assert(!is_digit(field@[q as int]));
                }
                return None;
            }
            q = q + 1;
        }
        proof {
            assert(fraction_ok(field@, d as int));
        }
    }
    // Accumulate the integer part, bailing out once it cannot fit a u32.
    let ghost int_part = field@.subrange(0, d as int);
    let mut v: u64 = 0;
    let mut k2: usize = 0;
    while k2 < d
        invariant
            0 <= k2 <= d <= field@.len(),
            field@ == trimmed,
            forall|i: int| 0 <= i < d ==> is_digit(#[trigger] field@[i]),
            v as int == digits_val(field@.subrange(0, k2 as int)),
            v <= u32::MAX,
        decreases d - k2,
    {
        let digit: u64 = (field[k2] - 48) as u64;
        let next: u64 = v * 10 + digit;
        proof {
            let t = field@.subrange(0, k2 as int + 1);
            assert(t.drop_last() =~~= field@.subrange(0, k2 as int));
            assert(digits_val(t) == digits_val(field@.subrange(0, k2 as int)) * 10 + (
            field@[k2 as int] - 48));
        }
        if next > 0xffff_ffff {
            proof {
                lemma_digits_val_prefix(int_part, k2 as int + 1);
                assert(int_part.subrange(0, k2 as int + 1) =~~= field@.subrange(
                    0,
                    k2 as int + 1,
                ));
                assert(digits_val(int_part) > u32::MAX);
            }
            return None;
        }
        v = next;
        k2 = k2 + 1;
    }
    proof {
        assert(field@.subrange(0, d as int) =~~= int_part);
    }
    Some(v as u32)
}

/// The rate actually used for conversion: the detected rate when it is
/// plausible, else the 48000 Hz fallback. A parse failure or a rate below
/// 100 Hz (which no capture hardware reports) falls back.
pub fn effective_sample_rate(parsed: Option<u32>) -> (r: u32)
    ensures
        r == effective_rate_spec(parsed),
        r >= 100,
{
    match parsed {
        Some(rate) => {
            if rate >= 100 {
                rate
            } else {
                48000
            }
        },
        None => 48000,
    }
}

/// The fallback rule applied to a detected rate.
pub open spec fn effective_rate_spec(parsed: Option<u32>) -> u32 {
    match parsed {
        Some(rate) => if rate >= 100 {
            rate
        } else {
            48000
        },
        None => 48000,
    }
}

} // verus!
