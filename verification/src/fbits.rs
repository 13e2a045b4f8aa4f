//! Model of IEEE-754 binary64 values as their 64-bit patterns.
//!
//! The whole crate stores measurements as bit patterns (`u64`). The
//! arithmetic on them is done by the operations below. IEEE-754 requires
//! the basic operations to return the correctly rounded result, so each
//! operation is a function of the argument bit patterns alone, with one
//! exception: when the result is a NaN, only its NaN-ness is pinned down,
//! not its payload. The contracts below therefore name the canonical
//! result of each operation and promise agreement with it up to that
//! exception.
use vstd::prelude::*;

verus! {

/// Name for the IEEE-754 binary64 sum of two bit patterns.
pub uninterp spec fn add_bits(a: u64, b: u64) -> u64;

/// Name for the IEEE-754 binary64 difference of two bit patterns.
pub uninterp spec fn sub_bits(a: u64, b: u64) -> u64;

/// Name for the IEEE-754 binary64 product of two bit patterns.
pub uninterp spec fn mul_bits(a: u64, b: u64) -> u64;

/// Name for the IEEE-754 binary64 quotient of two bit patterns.
pub uninterp spec fn div_bits(a: u64, b: u64) -> u64;

/// Name for the IEEE-754 binary64 square root of a bit pattern.
pub uninterp spec fn sqrt_bits(a: u64) -> u64;

/// Name for what `libm::exp` returns on a bit pattern.
pub uninterp spec fn exp_bits(a: u64) -> u64;

/// Name for what `libm::pow` returns on two bit patterns.
pub uninterp spec fn pow_bits(a: u64, b: u64) -> u64;

/// Name for the IEEE-754 `<` comparison of two bit patterns.
pub uninterp spec fn lt_bits(a: u64, b: u64) -> bool;

/// Name for the exact conversion of a 32-bit unsigned integer to a
/// binary64 bit pattern.
pub uninterp spec fn f64_of_u32(x: u32) -> u64;

/// The bit pattern with the sign bit cleared.
pub open spec fn abs_bits(a: u64) -> u64 {
    if a >= 0x8000_0000_0000_0000 {
        (a - 0x8000_0000_0000_0000) as u64
    } else {
        a
    }
}

/// Whether a bit pattern encodes a NaN: all exponent bits set and a
/// nonzero fraction field.
pub open spec fn is_nan_bits(a: u64) -> bool {
    abs_bits(a) > 0x7ff0_0000_0000_0000
}

/// How the bits returned by an operation relate to the canonical bits:
/// equal, unless the canonical result is a NaN, in which case the
/// returned bits are some NaN.
pub open spec fn rounds_as(r: u64, canon: u64) -> bool {
    &&& is_nan_bits(r) == is_nan_bits(canon)
    &&& !is_nan_bits(r) ==> r == canon
}

/// The bit pattern with the sign bit flipped: the IEEE-754 negation.
pub open spec fn neg_bits(a: u64) -> u64 {
    if a >= 0x8000_0000_0000_0000 {
        (a - 0x8000_0000_0000_0000) as u64
    } else {
        (a + 0x8000_0000_0000_0000) as u64
    }
}

/// A key that orders bit patterns like the IEEE-754 total order:
/// ascending in numeric value, every negative value below every
/// positive one, -0.0 just below +0.0, NaNs at the two extremes.
pub open spec fn sort_key(a: u64) -> u64 {
    if a >= 0x8000_0000_0000_0000 {
        (0xffff_ffff_ffff_ffff - a) as u64
    } else {
        (a + 0x8000_0000_0000_0000) as u64
    }
}

/// Executable test for a NaN bit pattern.
pub fn is_nan(a: u64) -> (r: bool)
    ensures
        r == is_nan_bits(a),
{
    let abs: u64 = if a >= 0x8000_0000_0000_0000 {
        a - 0x8000_0000_0000_0000
    } else {
        a
    };
    abs > 0x7ff0_0000_0000_0000
}

/// Executable IEEE-754 negation: flip the sign bit.
pub fn neg(a: u64) -> (r: u64)
    ensures
        r == neg_bits(a),
{
    if a >= 0x8000_0000_0000_0000 {
        a - 0x8000_0000_0000_0000
    } else {
        a + 0x8000_0000_0000_0000
    }
}

/// Executable total-order key.
pub fn total_key(a: u64) -> (r: u64)
    ensures
        r == sort_key(a),
{
    if a >= 0x8000_0000_0000_0000 {
        0xffff_ffff_ffff_ffff - a
    } else {
        a + 0x8000_0000_0000_0000
    }
}

/// Relies on the `+` operator of the binary64 type: IEEE-754 requires
/// the correctly rounded sum, a function of the two bit patterns alone,
/// up to the payload of a NaN result.
#[verifier::external_body]
pub fn add_f(a: u64, b: u64) -> (r: u64)
    ensures
        rounds_as(r, add_bits(a, b)),
{
    let x = libm::copysign(bytemuck::cast(a), bytemuck::cast(a));
    let y = libm::copysign(bytemuck::cast(b), bytemuck::cast(b));
    bytemuck::cast(x + y)
}

/// Relies on the `-` operator of the binary64 type: IEEE-754 requires
/// the correctly rounded difference, a function of the two bit patterns
/// alone, up to the payload of a NaN result.
#[verifier::external_body]
pub fn sub_f(a: u64, b: u64) -> (r: u64)
    ensures
        rounds_as(r, sub_bits(a, b)),
{
    let x = libm::copysign(bytemuck::cast(a), bytemuck::cast(a));
    let y = libm::copysign(bytemuck::cast(b), bytemuck::cast(b));
    bytemuck::cast(x - y)
}

/// Relies on the `*` operator of the binary64 type: IEEE-754 requires
/// the correctly rounded product, a function of the two bit patterns
/// alone, up to the payload of a NaN result.
#[verifier::external_body]
pub fn mul_f(a: u64, b: u64) -> (r: u64)
    ensures
        rounds_as(r, mul_bits(a, b)),
{
    let x = libm::copysign(bytemuck::cast(a), bytemuck::cast(a));
    let y = libm::copysign(bytemuck::cast(b), bytemuck::cast(b));
    bytemuck::cast(x * y)
}

/// Relies on the `/` operator of the binary64 type: IEEE-754 requires
/// the correctly rounded quotient, a function of the two bit patterns
/// alone, up to the payload of a NaN result.
#[verifier::external_body]
pub fn div_f(a: u64, b: u64) -> (r: u64)
    ensures
        rounds_as(r, div_bits(a, b)),
{
    let x = libm::copysign(bytemuck::cast(a), bytemuck::cast(a));
    let y = libm::copysign(bytemuck::cast(b), bytemuck::cast(b));
    bytemuck::cast(x / y)
}

/// Relies on `libm::sqrt`: IEEE-754 requires the correctly rounded
/// square root, a function of the bit pattern alone, up to the payload
/// of a NaN result.
#[verifier::external_body]
pub fn sqrt_f(a: u64) -> (r: u64)
    ensures
        rounds_as(r, sqrt_bits(a)),
{
    bytemuck::cast(libm::sqrt(bytemuck::cast(a)))
}

/// Relies on `libm::exp`: a fixed implementation whose result is a
/// function of the bit pattern alone, up to the payload of a NaN result.
#[verifier::external_body]
pub fn exp_f(a: u64) -> (r: u64)
    ensures
        rounds_as(r, exp_bits(a)),
{
    bytemuck::cast(libm::exp(bytemuck::cast(a)))
}

/// Relies on `libm::pow`: a fixed implementation whose result is a
/// function of the two bit patterns alone, up to the payload of a NaN
/// result.
#[verifier::external_body]
pub fn pow_f(a: u64, b: u64) -> (r: u64)
    ensures
        rounds_as(r, pow_bits(a, b)),
{
    bytemuck::cast(libm::pow(bytemuck::cast(a), bytemuck::cast(b)))
}

/// Relies on the `<` operator of the binary64 type: the IEEE-754
/// comparison, fully determined by the two bit patterns (every
/// comparison against a NaN is false).
#[verifier::external_body]
pub fn lt_f(a: u64, b: u64) -> (r: bool)
    ensures
        r == lt_bits(a, b),
{
    let x = libm::copysign(bytemuck::cast(a), bytemuck::cast(a));
    let y = libm::copysign(bytemuck::cast(b), bytemuck::cast(b));
    x < y
}

/// Relies on the conversion from `u32` to binary64: every 32-bit
/// integer is exactly representable, so the conversion is exact and
/// fully determined.
#[verifier::external_body]
pub fn f64_from_u32(x: u32) -> (r: u64)
    ensures
        r == f64_of_u32(x),
{
    let v = libm::copysign(x.into(), x.into());
    bytemuck::cast(v)
}

} // verus!
