//! Rounded binary32 arithmetic on bit patterns.
//!
//! Addition, subtraction, multiplication and division are not computed
//! here: they are taken from `rustc_apfloat`, which works them out in integer
//! code as IEEE 754 lays them down, so that the same patterns give the same
//! pattern on every machine. The sine is taken from `const_soft_float` in the
//! same way. Each operation has a name that contracts use, and a function
//! whose own contract is believed, not proved: that the outside result is
//! what the name stands for.

use vstd::prelude::*;
use const_soft_float::soft_f32::SoftF32;
use rustc_apfloat::ieee::Single;
use rustc_apfloat::Float;

verus! {

/// What `rustc_apfloat` gives as `a + b` for two binary32 patterns: the sum,
/// rounded to the nearest binary32 number, ties to even.
pub uninterp spec fn sum(a: u32, b: u32) -> u32;

/// What `rustc_apfloat` gives as `a - b` for two binary32 patterns: the
/// difference, rounded to the nearest binary32 number, ties to even.
pub uninterp spec fn difference(a: u32, b: u32) -> u32;

/// What `rustc_apfloat` gives as `a * b` for two binary32 patterns: the
/// product, rounded to the nearest binary32 number, ties to even.
pub uninterp spec fn product(a: u32, b: u32) -> u32;

/// What `rustc_apfloat` gives as `a / b` for two binary32 patterns: the
/// quotient, rounded to the nearest binary32 number, ties to even. A zero
/// divisor gives an infinity or a NaN.
pub uninterp spec fn quotient(a: u32, b: u32) -> u32;

/// What `const_soft_float` gives as the sine of `x` radians, for a binary32
/// pattern `x`: that crate's approximation of the sine.
pub uninterp spec fn sine(x: u32) -> u32;

/// What `rustc_apfloat` gives as the binary32 number for the integer `n`:
/// `n` itself where it has at most 24 digits, else the nearest binary32
/// number, ties to even.
pub uninterp spec fn counted(n: u64) -> u32;

/// Calls `Float::from_u128` of `rustc_apfloat::ieee::Single` and drops the
/// status flags. Believed: the value is a function of `n` alone, named
/// `counted`.
#[verifier::external_body]
pub(crate) fn count_bits(n: u64) -> (r: u32)
    ensures
        r == counted(n),
{
    Single::from_u128(n as u128).value.to_bits() as u32
}

/// Calls the `+` of `rustc_apfloat::ieee::Single` (`Add::add`, which is
/// `Float::add_r` with ties to even) and drops the status flags. Believed:
/// the value is a function of the two patterns alone, named `sum`.
#[verifier::external_body]
pub(crate) fn add_bits(a: u32, b: u32) -> (r: u32)
    ensures
        r == sum(a, b),
{
    (Single::from_bits(a as u128) + Single::from_bits(b as u128)).value.to_bits() as u32
}

/// Calls the `-` of `rustc_apfloat::ieee::Single` (`Sub::sub`, which is
/// `Float::sub_r` with ties to even) and drops the status flags. Believed:
/// the value is a function of the two patterns alone, named `difference`.
#[verifier::external_body]
pub(crate) fn sub_bits(a: u32, b: u32) -> (r: u32)
    ensures
        r == difference(a, b),
{
    (Single::from_bits(a as u128) - Single::from_bits(b as u128)).value.to_bits() as u32
}

/// Calls the `*` of `rustc_apfloat::ieee::Single` (`Mul::mul`, which is
/// `Float::mul_r` with ties to even) and drops the status flags. Believed:
/// the value is a function of the two patterns alone, named `product`.
#[verifier::external_body]
pub(crate) fn mul_bits(a: u32, b: u32) -> (r: u32)
    ensures
        r == product(a, b),
{
    (Single::from_bits(a as u128) * Single::from_bits(b as u128)).value.to_bits() as u32
}

/// Calls the `/` of `rustc_apfloat::ieee::Single` (`Div::div`, which is
/// `Float::div_r` with ties to even) and drops the status flags. Believed:
/// the value is a function of the two patterns alone, named `quotient`.
#[verifier::external_body]
pub(crate) fn div_bits(a: u32, b: u32) -> (r: u32)
    ensures
        r == quotient(a, b),
{
    (Single::from_bits(a as u128) / Single::from_bits(b as u128)).value.to_bits() as u32
}

/// Calls `SoftF32::sin` of `const_soft_float`. Believed: the call is a
/// function of the pattern alone, named `sine`.
#[verifier::external_body]
pub(crate) fn sin_bits(x: u32) -> (r: u32)
    ensures
        r == sine(x),
{
    SoftF32::from_bits(x).sin().to_bits()
}

} // verus!
