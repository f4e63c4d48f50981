//! Single-precision IEEE 754 values carried as their `u32` bit patterns.
//!
//! Verified code never holds a floating-point value directly: every score,
//! accumulator and buffer element is the `u32` bit pattern of the
//! single-precision value it stands for.  The arithmetic on those values is
//! done by the `wide` crate behind the trusted wrappers below; each
//! operation's result is named by an uninterpreted spec function of the
//! operand bit patterns, so that contracts can state results exactly and
//! relate one computation to another.

use vstd::prelude::*;

verus! {

/// Bit pattern of single-precision `0.0`.
pub const POS_ZERO_BITS: u32 = 0x0000_0000;

/// Bit pattern of single-precision `-0.0`.
pub const NEG_ZERO_BITS: u32 = 0x8000_0000;

/// Bit pattern of single-precision `1.0`.
pub const ONE_BITS: u32 = 0x3f80_0000;

/// Bit pattern of single-precision `-1.0`.
pub const NEG_ONE_BITS: u32 = 0xbf80_0000;

/// IEEE 754 equality with zero, decided on the bit pattern: `x == 0.0`
/// holds exactly for the two zero encodings.  NaN compares unequal to
/// everything, and every other bit pattern encodes a non-zero value.
pub open spec fn is_zero_bits(x: u32) -> bool {
    x == POS_ZERO_BITS || x == NEG_ZERO_BITS
}

/// Every element encodes an IEEE 754 zero, of either sign.
pub open spec fn all_zero_bits(v: Seq<u32>) -> bool {
    forall|i: int| 0 <= i < v.len() ==> is_zero_bits(v[i])
}

/// IEEE 754 comparison of the encoded value with zero (`x == 0.0`).
pub(crate) fn eq_zero(x: u32) -> (r: bool)
    ensures
        r == is_zero_bits(x),
{
    x == POS_ZERO_BITS || x == NEG_ZERO_BITS
}

/// The bit pattern of the single-precision product of the values encoded
/// by `a` and `b`.
pub uninterp spec fn mul_bits(a: u32, b: u32) -> u32;

/// Relies on `wide::f32x4`'s lane-wise multiplication, IEEE 754
/// single-precision `*`: the product is a function of the operand bit
/// patterns alone.  All four lanes hold the same operands; lane 0 is
/// returned.  A zero squared is exactly `+0.0`.
#[verifier::external_body]
pub(crate) fn mul32(a: u32, b: u32) -> (r: u32)
    ensures
        r == mul_bits(a, b),
        a == b && is_zero_bits(a) ==> r == POS_ZERO_BITS,
{
    let va: wide::f32x4 = wide::bytemuck::cast([a, a, a, a]);
    let vb: wide::f32x4 = wide::bytemuck::cast([b, b, b, b]);
    let out: [u32; 4] = wide::bytemuck::cast(va * vb);
    out[0]
}

/// The bit pattern of the single-precision sum of the values encoded by
/// `a` and `b`.
pub uninterp spec fn add_bits(a: u32, b: u32) -> u32;

/// Relies on `wide::f32x4`'s lane-wise addition, IEEE 754 single-precision
/// `+`: the sum is a function of the operand bit patterns alone.  The
/// sum of two positive zeros is exactly `+0.0`.
#[verifier::external_body]
pub(crate) fn add32(a: u32, b: u32) -> (r: u32)
    ensures
        r == add_bits(a, b),
        a == POS_ZERO_BITS && b == POS_ZERO_BITS ==> r == POS_ZERO_BITS,
{
    let va: wide::f32x4 = wide::bytemuck::cast([a, a, a, a]);
    let vb: wide::f32x4 = wide::bytemuck::cast([b, b, b, b]);
    let out: [u32; 4] = wide::bytemuck::cast(va + vb);
    out[0]
}

/// The bit pattern of the single-precision quotient of the values encoded
/// by `a` and `b`.
pub uninterp spec fn div_bits(a: u32, b: u32) -> u32;

/// Relies on `wide::f32x4`'s lane-wise division, IEEE 754 single-precision
/// `/`: the quotient is a function of the operand bit patterns alone.
#[verifier::external_body]
pub(crate) fn div32(a: u32, b: u32) -> (r: u32)
    ensures
        r == div_bits(a, b),
{
    let va: wide::f32x4 = wide::bytemuck::cast([a, a, a, a]);
    let vb: wide::f32x4 = wide::bytemuck::cast([b, b, b, b]);
    let out: [u32; 4] = wide::bytemuck::cast(va / vb);
    out[0]
}

/// The bit pattern of the single-precision square root of the value
/// encoded by `a`.
pub uninterp spec fn sqrt_bits(a: u32) -> u32;

/// Relies on `wide::f32x4::sqrt`, IEEE 754 single-precision square root:
/// the root is a function of the operand bit pattern alone, and the
/// root of `+0.0` is exactly `+0.0`.
#[verifier::external_body]
pub(crate) fn sqrt32(a: u32) -> (r: u32)
    ensures
        r == sqrt_bits(a),
        a == POS_ZERO_BITS ==> r == POS_ZERO_BITS,
{
    let va: wide::f32x4 = wide::bytemuck::cast([a, a, a, a]);
    let out: [u32; 4] = wide::bytemuck::cast(va.sqrt());
    out[0]
}

/// The bit pattern of the larger of the values encoded by `a` and `b`; if
/// one operand is NaN the other is taken.
pub uninterp spec fn max_bits(a: u32, b: u32) -> u32;

/// Relies on `wide::f32x4::max`, which returns the non-NaN operand when
/// one is NaN and the larger value otherwise: a function of the operand
/// bit patterns alone.
#[verifier::external_body]
pub(crate) fn max32(a: u32, b: u32) -> (r: u32)
    ensures
        r == max_bits(a, b),
{
    let va: wide::f32x4 = wide::bytemuck::cast([a, a, a, a]);
    let vb: wide::f32x4 = wide::bytemuck::cast([b, b, b, b]);
    let out: [u32; 4] = wide::bytemuck::cast(va.max(vb));
    out[0]
}

/// The bit pattern of the smaller of the values encoded by `a` and `b`; if
/// one operand is NaN the other is taken.
pub uninterp spec fn min_bits(a: u32, b: u32) -> u32;

/// Relies on `wide::f32x4::min`, which returns the non-NaN operand when
/// one is NaN and the smaller value otherwise: a function of the operand
/// bit patterns alone.
#[verifier::external_body]
pub(crate) fn min32(a: u32, b: u32) -> (r: u32)
    ensures
        r == min_bits(a, b),
{
    let va: wide::f32x4 = wide::bytemuck::cast([a, a, a, a]);
    let vb: wide::f32x4 = wide::bytemuck::cast([b, b, b, b]);
    let out: [u32; 4] = wide::bytemuck::cast(va.min(vb));
    out[0]
}

/// The bit patterns of the four lane-wise multiply-adds
/// `a[i] * b[i] + acc[i]`.
pub uninterp spec fn lane_mul_add_bits(a: Seq<u32>, b: Seq<u32>, acc: Seq<u32>) -> Seq<u32>;

/// Relies on `wide::f32x4::mul_add`: per lane, `a * b + acc` as one fused
/// multiply-add where the build target offers it, and as a multiply
/// followed by an add otherwise; in either form a function of the lane
/// bit patterns alone.  Squaring zero lanes onto positive-zero lanes
/// leaves the accumulator exactly as it was, fused or not.
#[verifier::external_body]
pub(crate) fn lane_mul_add(a: &[u32; 4], b: &[u32; 4], acc: &[u32; 4]) -> (r: [u32; 4])
    ensures
        r@ == lane_mul_add_bits(a@, b@, acc@),
        a@ == b@ && all_zero_bits(a@) && (forall|n: int|
            0 <= n < 4 ==> acc@[n] == POS_ZERO_BITS) ==> r@ == acc@,
{
    let va: wide::f32x4 = wide::bytemuck::cast(*a);
    let vb: wide::f32x4 = wide::bytemuck::cast(*b);
    let vc: wide::f32x4 = wide::bytemuck::cast(*acc);
    wide::bytemuck::cast(va.mul_add(vb, vc))
}

/// The bit pattern of the horizontal reduction of a four-lane accumulator:
/// the single-precision sum of its lanes.
pub uninterp spec fn lane_sum_bits(acc: Seq<u32>) -> u32;

/// Relies on `wide::f32x4::reduce_add`: the lanes are added left to right
/// into one single-precision scalar, a function of the lane bit patterns
/// alone.  Four positive zeros sum to exactly `+0.0`.
#[verifier::external_body]
pub(crate) fn lane_reduce_add(acc: &[u32; 4]) -> (r: u32)
    ensures
        r == lane_sum_bits(acc@),
        (forall|n: int| 0 <= n < 4 ==> acc@[n] == POS_ZERO_BITS) ==> r == POS_ZERO_BITS,
{
    let va: wide::f32x4 = wide::bytemuck::cast(*acc);
    va.reduce_add().to_bits()
}

} // verus!
