//! Unsigned decimal numbers as `str::parse` reads them: an optional `+`,
//! then one or more ASCII digits, with a value that fits the target type.
use vstd::prelude::*;
use vstd::string::StringSliceAdditionalSpecFns;

verus! {

/// `+` in ASCII.
pub const PLUS: u8 = 43;

/// `0` in ASCII.
pub const DIGIT_ZERO: u8 = 48;

/// `9` in ASCII.
pub const DIGIT_NINE: u8 = 57;

pub open spec fn is_digit(c: u8) -> bool {
    DIGIT_ZERO <= c <= DIGIT_NINE
}

pub open spec fn all_digits(d: Seq<u8>) -> bool {
    forall|i: int| 0 <= i < d.len() ==> #[trigger] is_digit(d[i])
}

/// The value of a run of decimal digits, most significant first.
pub open spec fn digits_value(d: Seq<u8>) -> nat
    decreases d.len(),
{
    if d.len() == 0 {
        0
    } else {
        digits_value(d.drop_last()) * 10 + (d.last() - DIGIT_ZERO) as nat
    }
}

/// The digits of `b` once an optional leading `+` is taken off.
pub open spec fn unsigned_digits(b: Seq<u8>) -> Seq<u8> {
    if b.len() > 0 && b[0] == PLUS {
        b.drop_first()
    } else {
        b
    }
}

/// What parsing `b` as an unsigned integer no larger than `limit` gives.
pub open spec fn decimal_within(b: Seq<u8>, limit: nat) -> Option<nat> {
    let d = unsigned_digits(b);
    if d.len() > 0 && all_digits(d) && digits_value(d) <= limit {
        Some(digits_value(d))
    } else {
        None
    }
}

/// Reading a `u64` from `b`, as `u64::from_str` does.
pub open spec fn decimal_u64(b: Seq<u8>) -> Option<u64> {
    match decimal_within(b, u64::MAX as nat) {
        Some(v) => Some(v as u64),
        None => None,
    }
}

/// Reading a `u32` from `b`, as `u32::from_str` does.
pub open spec fn decimal_u32(b: Seq<u8>) -> Option<u32> {
    match decimal_within(b, u32::MAX as nat) {
        Some(v) => Some(v as u32),
        None => None,
    }
}

proof fn lemma_digits_value_prefix(d: Seq<u8>, i: int)
    requires
        0 <= i <= d.len(),
        all_digits(d),
    ensures
        digits_value(d.take(i)) <= digits_value(d),
    decreases d.len() - i,
{
    if i < d.len() {
        lemma_digits_value_prefix(d, i + 1);
        assert(d.take(i + 1).drop_last() =~= d.take(i));
        assert(is_digit(d[i]));
        let x = digits_value(d.take(i));
        let y = (d[i] - DIGIT_ZERO) as nat;
        assert(x <= x * 10 + y) by (nonlinear_arith);
    } else {
        assert(d.take(i) =~= d);
    }
}

/// Parses `b[start..end]` as an unsigned decimal no larger than `limit`.
fn parse_decimal_range(b: &[u8], start: usize, end: usize, limit: u64) -> (r: Option<u64>)
    requires
        start <= end <= b@.len(),
    ensures
        r matches Some(v) ==> decimal_within(b@.subrange(start as int, end as int), limit as nat)
            == Some(v as nat),
        r is None ==> decimal_within(b@.subrange(start as int, end as int), limit as nat) is None,
{
    let ghost s = b@.subrange(start as int, end as int);
    let mut first: usize = start;
    if start < end && b[start] == PLUS {
        first = start + 1;
    }
    let ghost d = b@.subrange(first as int, end as int);
    assert(unsigned_digits(s) =~= d);
    if first == end {
        return None;
    }
    let mut value: u64 = 0;
    let mut i: usize = first;
    while i < end
        invariant
            first <= i <= end <= b@.len(),
            d == b@.subrange(first as int, end as int),
            unsigned_digits(b@.subrange(start as int, end as int)) == d,
            all_digits(d.take(i - first)),
            value as nat == digits_value(d.take(i - first)),
            value <= limit,
        decreases end - i,
    {
        let c = b[i];
        if c < DIGIT_ZERO || c > DIGIT_NINE {
            assert(!is_digit(d[i - first]));
            return None;
        }
        let digit: u64 = (c - DIGIT_ZERO) as u64;
        assert(d.take(i - first + 1).drop_last() =~= d.take(i - first));
        if digit > limit || value > (limit - digit) / 10 {
            proof {
                assert(value * 10 + digit > limit) by (nonlinear_arith)
                    requires
                        digit > limit || value > (limit - digit) / 10,
                ;
                if all_digits(d) {
                    lemma_digits_value_prefix(d, i - first + 1);
                }
            }
            return None;
        }
        assert(value * 10 + digit <= limit) by (nonlinear_arith)
            requires
                value <= (limit - digit) / 10,
                digit <= limit,
        ;
        value = value * 10 + digit;
        i = i + 1;
        assert(all_digits(d.take(i - first)));
    }
    assert(d.take(i - first) =~= d);
    Some(value)
}

/// Reads `text` as a `u64`, accepting what `u64::from_str` accepts.
pub fn parse_u64(text: &str) -> (r: Option<u64>)
    ensures
        r == decimal_u64(text.spec_bytes()),
{
    let b = text.as_bytes();
    let r = parse_decimal_range(b, 0, b.len(), u64::MAX);
    assert(b@.subrange(0, b@.len() as int) =~= b@);
    r
}

/// Reads `text` as a `u32`, accepting what `u32::from_str` accepts.
pub fn parse_u32(text: &str) -> (r: Option<u32>)
    ensures
        r == decimal_u32(text.spec_bytes()),
{
    let b = text.as_bytes();
    let r = parse_decimal_range(b, 0, b.len(), u32::MAX as u64);
    assert(b@.subrange(0, b@.len() as int) =~= b@);
    match r {
        Some(v) => Some(v as u32),
        None => None,
    }
}

} // verus!
