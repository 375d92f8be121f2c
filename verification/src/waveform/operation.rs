//! New cycles from two given ones.

use vstd::prelude::*;
use crate::arith::{
    add_bits, difference, div_bits, mul_bits, product, quotient, sub_bits, sum,
};
use crate::binary32::{dyadic, from_ratio, round_to_i32, rounding_clamped};
use crate::waveform::Waveform;

verus! {

/// How far, in sample positions, a modulator sample `m` moves the read
/// position of the carrier: `amp × m × 2048`, rounded to the nearest
/// integer, halves away from zero.
pub open spec fn displacement(amp: u32, m: u32) -> int {
    rounding_clamped(
        product(product(amp, m), dyadic(2048, 0)),
        i32::MIN as int,
        i32::MAX as int,
    )
}

pub fn add(r: &Waveform, l: &Waveform) -> (w: Waveform)
    ensures
        forall|i: int| 0 <= i < 2048 ==> #[trigger] w@[i] == sum(r@[i], l@[i]),
{
    let mut w: [u32; 2048] = [0u32; 2048];
    let mut i: usize = 0;
    while i < 2048
        invariant
            i <= 2048,
            forall|k: int| 0 <= k < i ==> #[trigger] w@[k] == sum(r@[k], l@[k]),
        decreases 2048 - i,
    {
        w[i] = add_bits(r.waveform[i], l.waveform[i]);
        i += 1;
    }
    Waveform::new(w)
}

pub fn sub(r: &Waveform, l: &Waveform) -> (w: Waveform)
    ensures
        forall|i: int| 0 <= i < 2048 ==> #[trigger] w@[i] == difference(r@[i], l@[i]),
{
    let mut w: [u32; 2048] = [0u32; 2048];
    let mut i: usize = 0;
    while i < 2048
        invariant
            i <= 2048,
            forall|k: int| 0 <= k < i ==> #[trigger] w@[k] == difference(r@[k], l@[k]),
        decreases 2048 - i,
    {
        w[i] = sub_bits(r.waveform[i], l.waveform[i]);
        i += 1;
    }
    Waveform::new(w)
}

pub fn mul(r: &Waveform, l: &Waveform) -> (w: Waveform)
    ensures
        forall|i: int| 0 <= i < 2048 ==> #[trigger] w@[i] == product(r@[i], l@[i]),
{
    let mut w: [u32; 2048] = [0u32; 2048];
    let mut i: usize = 0;
    while i < 2048
        invariant
            i <= 2048,
            forall|k: int| 0 <= k < i ==> #[trigger] w@[k] == product(r@[k], l@[k]),
        decreases 2048 - i,
    {
        w[i] = mul_bits(r.waveform[i], l.waveform[i]);
        i += 1;
    }
    Waveform::new(w)
}

/// Sample by sample `r / l`. A zero in `l` is not an error: the sample is an
/// infinity or a NaN.
pub fn div(r: &Waveform, l: &Waveform) -> (w: Waveform)
    ensures
        forall|i: int| 0 <= i < 2048 ==> #[trigger] w@[i] == quotient(r@[i], l@[i]),
{
    let mut w: [u32; 2048] = [0u32; 2048];
    let mut i: usize = 0;
    while i < 2048
        invariant
            i <= 2048,
            forall|k: int| 0 <= k < i ==> #[trigger] w@[k] == quotient(r@[k], l@[k]),
        decreases 2048 - i,
    {
        w[i] = div_bits(r.waveform[i], l.waveform[i]);
        i += 1;
    }
    Waveform::new(w)
}

/// Frequency modulation: sample `i` is read from the carrier at `i` moved by
/// what the modulator, read `harmonic` times as fast, displaces it. With the
/// modulator at a half-integer multiple of the carrier's fundamental the
/// displacement aliases; that is left as it is.
pub fn fm(carrier: &Waveform, amp: u32, harmonic: i32, modulator: &Waveform) -> (w: Waveform)
    ensures
        forall|i: int|
            0 <= i < 2048 ==> #[trigger] w@[i] == carrier.evaluate(
                i + displacement(amp, modulator.evaluate(i * harmonic)),
            ),
{
    let cycle: u32 = from_ratio(2048, 0);
    let mut w: [u32; 2048] = [0u32; 2048];
    let mut i: usize = 0;
    while i < 2048
        invariant
            i <= 2048,
            cycle == dyadic(2048, 0),
            forall|k: int|
                0 <= k < i ==> #[trigger] w@[k] == carrier.evaluate(
                    k + displacement(amp, modulator.evaluate(k * harmonic)),
                ),
        decreases 2048 - i,
    {
        assert(-0x1000_0000_0000 <= (i as int) * (harmonic as int) <= 0x1000_0000_0000)
            by (nonlinear_arith)
            requires
                0 <= i < 2048,
                -0x8000_0000 <= harmonic < 0x8000_0000,
        ;
        let m: u32 = modulator.at(i as i64 * harmonic as i64);
        let offset: i32 = round_to_i32(mul_bits(mul_bits(amp, m), cycle));
        w[i] = carrier.at(i as i64 + offset as i64);
        i += 1;
    }
    Waveform::new(w)
}

} // verus!
