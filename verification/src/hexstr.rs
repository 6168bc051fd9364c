//! Parsing of hexadecimal integers, as block numbers arrive in headers:
//! an optional `0x` prefix followed by hex digits of either case. A
//! malformed or overflowing number is a decode error of the header, so
//! the parse says exactly which inputs it accepts.

use vstd::prelude::*;
use vstd::string::StringSliceAdditionalSpecFns;

verus! {

/// ASCII `0`.
pub const DIGIT_ZERO: u8 = 48;

/// ASCII `9`.
pub const DIGIT_NINE: u8 = 57;

/// ASCII `A` and `F`.
pub const UPPER_A: u8 = 65;

pub const UPPER_F: u8 = 70;

/// ASCII `a`, `f` and `x`.
pub const LOWER_A: u8 = 97;

pub const LOWER_F: u8 = 102;

pub const LOWER_X: u8 = 120;

/// The byte is an ASCII hex digit.
pub open spec fn is_hex_digit(b: u8) -> bool {
    (DIGIT_ZERO <= b <= DIGIT_NINE) || (LOWER_A <= b <= LOWER_F) || (UPPER_A <= b <= UPPER_F)
}

/// Value of one hex digit.
pub open spec fn hex_digit_value(b: u8) -> int {
    if DIGIT_ZERO <= b <= DIGIT_NINE {
        b - DIGIT_ZERO
    } else if LOWER_A <= b <= LOWER_F {
        b - LOWER_A + 10
    } else {
        b - UPPER_A + 10
    }
}

pub open spec fn all_hex_digits(s: Seq<u8>) -> bool {
    forall|i: int| 0 <= i < s.len() ==> is_hex_digit(#[trigger] s[i])
}

/// Value of a big-endian string of hex digits.
pub open spec fn hex_value(s: Seq<u8>) -> int
    decreases s.len(),
{
    if s.len() == 0 {
        0
    } else {
        16 * hex_value(s.drop_last()) + hex_digit_value(s.last())
    }
}

/// The digits of the input: everything after one leading `0x`, if there
/// is one, else the whole input.
pub open spec fn spec_strip_hex_prefix(s: Seq<u8>) -> Seq<u8> {
    if s.len() >= 2 && s[0] == DIGIT_ZERO && s[1] == LOWER_X {
        s.subrange(2, s.len() as int)
    } else {
        s
    }
}

proof fn lemma_hex_value_nonneg(s: Seq<u8>)
    requires
        all_hex_digits(s),
    ensures
        hex_value(s) >= 0,
    decreases s.len(),
{
    if s.len() > 0 {
        assert(all_hex_digits(s.drop_last())) by {
            assert(forall|i: int|
                0 <= i < s.len() - 1 ==> is_hex_digit(#[trigger] s.drop_last()[i])
                    == is_hex_digit(s[i]));
        }
        lemma_hex_value_nonneg(s.drop_last());
    }
}

/// Appending digits never lowers the value.
proof fn lemma_hex_value_extend(s: Seq<u8>, i: int)
    requires
        all_hex_digits(s),
        0 <= i <= s.len(),
    ensures
        hex_value(s) >= hex_value(s.take(i)),
    decreases s.len() - i,
{
    if i < s.len() {
        lemma_hex_value_extend(s, i + 1);
        assert(s.take(i + 1).drop_last() =~= s.take(i));
        assert(all_hex_digits(s.take(i))) by {
            assert(forall|k: int|
                0 <= k < i ==> is_hex_digit(#[trigger] s.take(i)[k]) == is_hex_digit(s[k]));
        }
        lemma_hex_value_nonneg(s.take(i));
        assert(is_hex_digit(s.take(i + 1).last()));
    } else {
        assert(s.take(i) =~= s);
    }
}

/// A hexadecimal `u64`: an optional `0x` prefix, then at least one hex
/// digit of either case. Returns the digits' value, or nothing when a
/// digit is missing or invalid or the value does not fit 64 bits.
pub fn parse_u64_hex(s: &str) -> (r: Option<u64>)
    ensures
        ({
            let digits = spec_strip_hex_prefix(s.spec_bytes());
            match r {
                Some(v) => {
                    &&& digits.len() >= 1
                    &&& all_hex_digits(digits)
                    &&& v == hex_value(digits)
                },
                None => {
                    digits.len() == 0 || !all_hex_digits(digits) || hex_value(digits)
                        > u64::MAX
                },
            }
        }),
{
    let bytes = s.as_bytes();
    let n = bytes.len();
    let start: usize = if n >= 2 && bytes[0] == DIGIT_ZERO && bytes[1] == LOWER_X {
        2
    } else {
        0
    };
    let ghost digits = spec_strip_hex_prefix(s.spec_bytes());
    proof {
        assert(digits =~= bytes@.subrange(start as int, n as int));
    }
    if n == start {
        return None;
    }
    let mut value: u64 = 0;
    let mut i: usize = start;
    while i < n
        invariant
            start <= i <= n == bytes@.len(),
            bytes@ == s.spec_bytes(),
            digits == spec_strip_hex_prefix(s.spec_bytes()),
            digits =~= bytes@.subrange(start as int, n as int),
            all_hex_digits(digits.take(i - start)),
            value == hex_value(digits.take(i - start)),
        decreases n - i,
    {
        let b = bytes[i];
        let d: u8 = if b >= DIGIT_ZERO && b <= DIGIT_NINE {
            b - DIGIT_ZERO
        } else if b >= LOWER_A && b <= LOWER_F {
            b - LOWER_A + 10
        } else if b >= UPPER_A && b <= UPPER_F {
            b - UPPER_A + 10
        } else {
            proof {
                assert(digits.len() == n - start);
                assert(0 <= i - start < digits.len());
                assert(digits[i - start] == bytes@[i as int]);
                assert(!is_hex_digit(digits[i - start]));
                assert(!all_hex_digits(digits));
            }
            return None;
        };
        proof {
            assert(digits.take(i - start + 1).drop_last() =~= digits.take(i - start));
            assert(digits.take(i - start + 1).last() == bytes@[i as int]);
        }
        if value >= 0x1000000000000000u64 {
            // this digit would push the value past 64 bits, and more
            // digits only raise it further
            proof {
                let prefix = digits.take(i - start + 1);
                assert(is_hex_digit(bytes@[i as int]));
                assert(hex_digit_value(bytes@[i as int]) >= 0);
                assert(prefix.len() == i - start + 1 >= 1);
                assert(prefix.drop_last() == digits.take(i - start));
                assert(hex_value(prefix) == 16 * hex_value(prefix.drop_last()) + hex_digit_value(
                    prefix.last(),
                ));
                assert(hex_value(prefix) == 16 * (value as int) + hex_digit_value(bytes@[i as int]));
                assert(hex_value(prefix) > u64::MAX);
                if all_hex_digits(digits) {
                    lemma_hex_value_extend(digits, i - start + 1);
                    assert(hex_value(digits) > u64::MAX);
                }
            }
            return None;
        }
        value = value * 16 + d as u64;
        i = i + 1;
    }
    proof {
        assert(digits.take(n - start) =~= digits);
    }
    Some(value)
}

} // verus!
