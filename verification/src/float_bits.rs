//! Bit-pattern model of 64-bit binary floating-point values.
//!
//! Radiance and distance values cross the library boundary as the raw bit
//! patterns of IEEE 754 binary64 numbers (a sign bit, 11 exponent bits, 52
//! mantissa bits). The library never does floating-point arithmetic; it only
//! needs to order and classify such values, and both are exact functions of
//! the bits:
//! - the magnitude of a value is its bit pattern with the sign bit cleared;
//! - a pattern encodes a NaN exactly when its magnitude exceeds the
//!   magnitude of infinity;
//! - the standard total order on binary64 values (negative NaNs first, then
//!   negative numbers by falling magnitude, negative zero, positive zero,
//!   positive numbers by rising magnitude, positive NaNs last) compares
//!   sign-magnitude patterns: flipping all bits of a negative pattern and
//!   setting the sign bit of a non-negative one yields keys whose unsigned
//!   order is that total order.

use vstd::prelude::*;

verus! {

/// Bit pattern with only the sign bit set; also the magnitude of the most
/// negative key range.
pub const SIGN_BIT: u64 = 0x8000_0000_0000_0000;

/// Bit pattern of positive infinity: all exponent bits set, mantissa zero.
pub const INFINITY_BITS: u64 = 0x7FF0_0000_0000_0000;

/// Magnitude of a pattern: the pattern with its sign bit cleared.
pub open spec fn magnitude(b: u64) -> int {
    if b >= SIGN_BIT {
        b - SIGN_BIT
    } else {
        b as int
    }
}

/// The sign bit is set.
pub open spec fn is_sign_negative(b: u64) -> bool {
    b >= SIGN_BIT
}

/// The pattern encodes a NaN.
pub open spec fn is_nan(b: u64) -> bool {
    magnitude(b) > INFINITY_BITS
}

/// The encoded value compares strictly greater than zero: sign clear,
/// magnitude nonzero, and not a NaN.
pub open spec fn is_strictly_positive(b: u64) -> bool {
    !is_sign_negative(b) && 1 <= b <= INFINITY_BITS
}

/// Key of a pattern in the standard total order: unsigned comparison of keys
/// is that order.
pub open spec fn total_order_key(b: u64) -> int {
    if b >= SIGN_BIT {
        u64::MAX - b
    } else {
        b + SIGN_BIT
    }
}

/// Magnitude of a pattern.
pub fn magnitude_of(b: u64) -> (m: u64)
    ensures
        m == magnitude(b),
{
    if b >= SIGN_BIT {
        b - SIGN_BIT
    } else {
        b
    }
}

/// The encoded value compares strictly greater than zero.
pub fn strictly_positive(b: u64) -> (r: bool)
    ensures
        r == is_strictly_positive(b),
{
    1 <= b && b <= INFINITY_BITS
}

fn total_order_key_of(b: u64) -> (k: u64)
    ensures
        k == total_order_key(b),
{
    if b >= SIGN_BIT {
        u64::MAX - b
    } else {
        b + SIGN_BIT
    }
}

/// `a` comes no later than `b` in the standard total order on binary64
/// values.
pub fn total_le(a: u64, b: u64) -> (r: bool)
    ensures
        r == (total_order_key(a) <= total_order_key(b)),
{
    total_order_key_of(a) <= total_order_key_of(b)
}

/// Signed key of a pattern on the number line: the magnitude, negated under
/// a set sign bit. Two patterns encode equal numbers exactly when their keys
/// are equal (both zeros share key zero), and an ordered comparison of
/// non-NaN patterns is the order of their keys.
pub open spec fn number_key(b: u64) -> int {
    if is_sign_negative(b) {
        -magnitude(b)
    } else {
        magnitude(b)
    }
}

/// The standard ordered `<` on binary64 values: false whenever either side
/// is a NaN, the order of the number keys otherwise.
pub open spec fn spec_f_lt(a: u64, b: u64) -> bool {
    !is_nan(a) && !is_nan(b) && number_key(a) < number_key(b)
}

/// The standard ordered `<=` on binary64 values: false whenever either side
/// is a NaN, the order of the number keys otherwise.
pub open spec fn spec_f_le(a: u64, b: u64) -> bool {
    !is_nan(a) && !is_nan(b) && number_key(a) <= number_key(b)
}

fn f_is_nan(b: u64) -> (r: bool)
    ensures
        r == is_nan(b),
{
    magnitude_of(b) > INFINITY_BITS
}

/// Ordered `<` on two binary64 bit patterns.
pub fn f_lt(a: u64, b: u64) -> (r: bool)
    ensures
        r == spec_f_lt(a, b),
{
    if f_is_nan(a) || f_is_nan(b) {
        return false;
    }
    let sa = a >= SIGN_BIT;
    let sb = b >= SIGN_BIT;
    let ma = magnitude_of(a);
    let mb = magnitude_of(b);
    if sa && sb {
        mb < ma
    } else if !sa && !sb {
        ma < mb
    } else if sa {
        // negative against non-negative: less unless both are zeros
        !(ma == 0 && mb == 0)
    } else {
        false
    }
}

/// Ordered `<=` on two binary64 bit patterns.
pub fn f_le(a: u64, b: u64) -> (r: bool)
    ensures
        r == spec_f_le(a, b),
{
    if f_is_nan(a) || f_is_nan(b) {
        return false;
    }
    let sa = a >= SIGN_BIT;
    let sb = b >= SIGN_BIT;
    let ma = magnitude_of(a);
    let mb = magnitude_of(b);
    if sa && sb {
        mb <= ma
    } else if !sa && !sb {
        ma <= mb
    } else if sa {
        true
    } else {
        ma == 0 && mb == 0
    }
}

/// A value is strictly positive exactly when zero is ordered below it.
pub proof fn lemma_strictly_positive_is_above_zero(b: u64)
    ensures
        is_strictly_positive(b) == spec_f_lt(0, b),
{
}

/// The total order refines the ordered comparison: whenever one value
/// compares strictly below another, it also comes earlier in the total
/// order. (The total order additionally ranks NaNs and splits the two
/// zeros, which `<` never distinguishes.)
pub proof fn lemma_lt_refines_total_order(a: u64, b: u64)
    requires
        spec_f_lt(a, b),
    ensures
        total_order_key(a) < total_order_key(b),
{
}

/// Distinct patterns have distinct keys: the total order never ties two
/// different patterns.
pub proof fn lemma_total_order_key_injective(a: u64, b: u64)
    requires
        total_order_key(a) == total_order_key(b),
    ensures
        a == b,
{
}

} // verus!
