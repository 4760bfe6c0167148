//! The IEEE 754 order of binary32 values, stated and decided on their bit
//! patterns. Depths and distances are handed to the library as the bits of
//! their `f32` values, so that comparisons stay exact integer logic.
use vstd::prelude::*;

verus! {

/// The bit pattern of the binary32 value `1.0`: the far plane of the
/// `[0, 1]` depth range, to which a cleared depth buffer is reset.
pub const DEPTH_FAR: u32 = 0x3F80_0000;

/// The bit pattern of the binary32 value `+0.0`.
pub const POSITIVE_ZERO: u32 = 0x0000_0000;

/// The bit pattern of the binary32 value `-0.0`.
pub const NEGATIVE_ZERO: u32 = 0x8000_0000;

/// Whether the sign bit of a binary32 encoding is set.
pub open spec fn binary32_negative(bits: u32) -> bool {
    bits >= 0x8000_0000
}

/// Exponent and significand of a binary32 encoding, read as one integer.
/// For values that are not NaN it grows strictly with the absolute value.
pub open spec fn binary32_magnitude(bits: u32) -> int {
    if binary32_negative(bits) {
        bits - 0x8000_0000
    } else {
        bits as int
    }
}

/// NaN: all exponent bits set and a non-zero significand.
pub open spec fn binary32_is_nan(bits: u32) -> bool {
    binary32_magnitude(bits) > 0x7F80_0000
}

/// An integer that orders the values that are not NaN as the reals they
/// denote order them; `+0.0` and `-0.0` both rank 0.
pub open spec fn binary32_rank(bits: u32) -> int {
    if binary32_negative(bits) {
        -binary32_magnitude(bits)
    } else {
        binary32_magnitude(bits)
    }
}

/// The IEEE 754 `<` on binary32 values, given by their encodings: false
/// whenever either side is NaN, and otherwise the order of the denoted values.
pub open spec fn binary32_lt(a: u32, b: u32) -> bool {
    &&& !binary32_is_nan(a)
    &&& !binary32_is_nan(b)
    &&& binary32_rank(a) < binary32_rank(b)
}

/// Decides `a < b` for the binary32 values with bit patterns `a` and `b`,
/// exactly as `f32`'s `<` does.
pub fn binary32_less(a: u32, b: u32) -> (less: bool)
    ensures
        less == binary32_lt(a, b),
{
    let a_negative = a >= 0x8000_0000;
    let b_negative = b >= 0x8000_0000;
    let a_magnitude: u32 = if a_negative { a - 0x8000_0000 } else { a };
    let b_magnitude: u32 = if b_negative { b - 0x8000_0000 } else { b };
    if a_magnitude > 0x7F80_0000 || b_magnitude > 0x7F80_0000 {
        false
    } else if !a_negative && !b_negative {
        a_magnitude < b_magnitude
    } else if a_negative && b_negative {
        b_magnitude < a_magnitude
    } else if a_negative {
        !(a_magnitude == 0 && b_magnitude == 0)
    } else {
        false
    }
}

/// No value is less than itself.
pub proof fn lemma_binary32_lt_irreflexive(a: u32)
    ensures
        !binary32_lt(a, a),
{
}

/// `<` is transitive.
pub proof fn lemma_binary32_lt_transitive(a: u32, b: u32, c: u32)
    requires
        binary32_lt(a, b),
        binary32_lt(b, c),
    ensures
        binary32_lt(a, c),
{
}

/// `<` is asymmetric.
pub proof fn lemma_binary32_lt_asymmetric(a: u32, b: u32)
    requires
        binary32_lt(a, b),
    ensures
        !binary32_lt(b, a),
{
}

/// NaN is unordered: it is neither less nor greater than any value.
pub proof fn lemma_binary32_nan_unordered(a: u32, b: u32)
    requires
        binary32_is_nan(a),
    ensures
        !binary32_lt(a, b),
        !binary32_lt(b, a),
{
}

/// `+0.0` and `-0.0` compare equal: neither is less than the other.
pub proof fn lemma_binary32_zeros_equal()
    ensures
        !binary32_lt(POSITIVE_ZERO, NEGATIVE_ZERO),
        !binary32_lt(NEGATIVE_ZERO, POSITIVE_ZERO),
{
}

/// Two values that are not NaN are either ordered one way or the other, or
/// equal: the same encoding, or the two zeros.
pub proof fn lemma_binary32_trichotomy(a: u32, b: u32)
    requires
        !binary32_is_nan(a),
        !binary32_is_nan(b),
    ensures
        binary32_lt(a, b) || binary32_lt(b, a) || a == b || (binary32_rank(a) == 0
            && binary32_rank(b) == 0),
{
}

/// On values with the sign bit clear that are not NaN, `<` is the order of
/// the bit patterns as unsigned integers.
pub proof fn lemma_binary32_lt_nonnegative(a: u32, b: u32)
    requires
        !binary32_is_nan(a),
        !binary32_is_nan(b),
        !binary32_negative(a),
        !binary32_negative(b),
    ensures
        binary32_lt(a, b) <==> a < b,
{
}

/// NaN, read off the fields of the encoding: the eight exponent bits all set
/// and the 23-bit significand not zero.
pub proof fn lemma_binary32_nan_fields(bits: u32)
    ensures
        binary32_is_nan(bits) <==> ((bits / 0x80_0000) % 256 == 255 && bits % 0x80_0000 != 0),
{
}

/// `<` read off the bit patterns of two values that are not NaN: between two
/// values with the sign bit clear the larger pattern is the larger value,
/// between two with the sign bit set the larger pattern is the smaller value,
/// and a value with the sign bit set is below one with it clear unless both
/// are zeros.
pub proof fn lemma_binary32_lt_by_bits(a: u32, b: u32)
    requires
        !binary32_is_nan(a),
        !binary32_is_nan(b),
    ensures
        a < 0x8000_0000 && b < 0x8000_0000 ==> (binary32_lt(a, b) <==> a < b),
        a >= 0x8000_0000 && b >= 0x8000_0000 ==> (binary32_lt(a, b) <==> b < a),
        a >= 0x8000_0000 && b < 0x8000_0000 ==> (binary32_lt(a, b) <==> !(a == NEGATIVE_ZERO
            && b == POSITIVE_ZERO)),
        a < 0x8000_0000 && b >= 0x8000_0000 ==> !binary32_lt(a, b),
{
}

} // verus!
