//! IEEE 754 binary32 numbers, held by their bit pattern.
//!
//! A sample is a `u32`: one sign bit, eight exponent bits, twenty-three
//! fraction bits. Everything in this module is integer work on that pattern:
//! classification, ordering, conversion to and from integers. Its meaning is
//! given by `significand` and `binary_exponent`: a finite pattern `b` stands
//! for the number `± significand(b) × 2^binary_exponent(b)`.

use vstd::prelude::*;
use vstd::arithmetic::power2::*;
use vstd::arithmetic::div_mod::*;
use vstd::arithmetic::mul::*;

verus! {

/// The pattern of `+0.0`.
pub const ZERO: u32 = 0;

/// The pattern of `1.0`.
pub const ONE: u32 = 0x3f80_0000;

/// The pattern of `-1.0`.
pub const NEG_ONE: u32 = 0xbf80_0000;

/// The pattern of `2.0`.
pub const TWO: u32 = 0x4000_0000;

/// The pattern of the binary32 number nearest to π.
pub const PI: u32 = 0x4049_0fdb;

/// The pattern of the quiet NaN with an empty payload.
pub const NAN: u32 = 0x7fc0_0000;

/// The pattern of `+∞`.
pub const INFINITY: u32 = 0x7f80_0000;

/// The pattern without its sign bit.
pub open spec fn magnitude_bits(b: u32) -> int {
    b as int % 0x8000_0000
}

/// The eight exponent bits.
pub open spec fn exponent_field(b: u32) -> int {
    magnitude_bits(b) / 0x80_0000
}

/// The twenty-three fraction bits.
pub open spec fn fraction_field(b: u32) -> int {
    b as int % 0x80_0000
}

/// The sign bit is set.
pub open spec fn is_negative(b: u32) -> bool {
    b >= 0x8000_0000
}

/// All exponent bits set and a fraction that is not zero.
pub open spec fn is_nan(b: u32) -> bool {
    magnitude_bits(b) > 0x7f80_0000
}

/// All exponent bits set and a zero fraction.
pub open spec fn is_infinite(b: u32) -> bool {
    magnitude_bits(b) == 0x7f80_0000
}

/// Neither an infinity nor a NaN.
pub open spec fn is_finite(b: u32) -> bool {
    magnitude_bits(b) < 0x7f80_0000
}

/// `+0.0` or `-0.0`.
pub open spec fn is_zero(b: u32) -> bool {
    magnitude_bits(b) == 0
}

/// The integer that a finite pattern scales by a power of two: the fraction
/// bits, with the implicit leading one unless the pattern is subnormal.
pub open spec fn significand(b: u32) -> int {
    if exponent_field(b) == 0 {
        fraction_field(b)
    } else {
        0x80_0000 + fraction_field(b)
    }
}

/// The power of two that scales the significand of a finite pattern.
pub open spec fn binary_exponent(b: u32) -> int {
    if exponent_field(b) == 0 {
        -149
    } else {
        exponent_field(b) - 150
    }
}

/// Where a pattern that is no NaN stands among all such patterns: the
/// numbers they stand for are ordered as these integers are, and the two
/// zeros share one place.
pub open spec fn rank(b: u32) -> int {
    if is_negative(b) {
        -magnitude_bits(b)
    } else {
        magnitude_bits(b)
    }
}

/// `a >= b` as numbers. False when either is a NaN.
pub open spec fn at_least(a: u32, b: u32) -> bool {
    !is_nan(a) && !is_nan(b) && rank(a) >= rank(b)
}

/// `a <= b` as numbers. False when either is a NaN.
pub open spec fn at_most(a: u32, b: u32) -> bool {
    !is_nan(a) && !is_nan(b) && rank(a) <= rank(b)
}

/// The larger of two numbers, where a NaN gives way to the other operand.
/// Of two operands of one rank the first is kept.
pub open spec fn larger(a: u32, b: u32) -> u32 {
    if is_nan(a) {
        b
    } else if is_nan(b) {
        a
    } else if rank(a) < rank(b) {
        b
    } else {
        a
    }
}

/// Whether the pattern is a NaN.
pub fn test_nan(b: u32) -> (r: bool)
    ensures
        r == is_nan(b),
{
    b % 0x8000_0000 > 0x7f80_0000
}

/// Whether the pattern is one of the two zeros.
pub fn test_zero(b: u32) -> (r: bool)
    ensures
        r == is_zero(b),
{
    b % 0x8000_0000 == 0
}

/// The rank of a pattern, as a machine integer.
fn rank_of(b: u32) -> (r: i64)
    ensures
        r == rank(b),
{
    let m: u32 = b % 0x8000_0000;
    if b >= 0x8000_0000 {
        -(m as i64)
    } else {
        m as i64
    }
}

/// Whether `a >= b` as numbers.
pub fn test_at_least(a: u32, b: u32) -> (r: bool)
    ensures
        r == at_least(a, b),
{
    !test_nan(a) && !test_nan(b) && rank_of(a) >= rank_of(b)
}

/// Whether `a <= b` as numbers.
pub fn test_at_most(a: u32, b: u32) -> (r: bool)
    ensures
        r == at_most(a, b),
{
    !test_nan(a) && !test_nan(b) && rank_of(a) <= rank_of(b)
}

/// The larger of two numbers, passing over a NaN.
pub fn pick_larger(a: u32, b: u32) -> (r: u32)
    ensures
        r == larger(a, b),
{
    if test_nan(a) {
        b
    } else if test_nan(b) {
        a
    } else if rank_of(a) < rank_of(b) {
        b
    } else {
        a
    }
}

/// The integer part of the magnitude of a finite pattern: `⌊|x|⌋`.
pub open spec fn whole(b: u32) -> int {
    let e = binary_exponent(b);
    if e >= 0 {
        significand(b) * pow2(e as nat)
    } else {
        significand(b) / (pow2((-e) as nat) as int)
    }
}

/// The magnitude of a finite pattern, rounded to the nearest integer, a
/// half rounding up: `⌊|x| + 1/2⌋`.
pub open spec fn nearest(b: u32) -> int {
    let e = binary_exponent(b);
    if e >= 0 {
        significand(b) * pow2(e as nat)
    } else {
        (2 * significand(b) + pow2((-e) as nat)) / (2 * pow2((-e) as nat) as int)
    }
}

/// `m`, with the sign of `b`.
pub open spec fn with_sign(b: u32, m: int) -> int {
    if is_negative(b) {
        -m
    } else {
        m
    }
}

/// The integer in `-32768..=32767` that agrees with `n` in its low 16 bits.
pub open spec fn low16(n: int) -> int {
    (n + 0x8000) % 0x1_0000 - 0x8000
}

/// `n`, or the bound that it lies beyond.
pub open spec fn clamp(n: int, lo: int, hi: int) -> int {
    if n < lo {
        lo
    } else if n > hi {
        hi
    } else {
        n
    }
}

/// A number cut off toward zero and reduced to its low 16 bits. Nothing is
/// clamped: 40000.7 gives 40000 - 65536. Infinities and NaNs give 0, as every
/// finite number from 2^39 on does.
pub open spec fn truncation_wrapped(b: u32) -> int {
    if is_finite(b) {
        low16(with_sign(b, whole(b)))
    } else {
        0
    }
}

/// A number cut off toward zero and clamped into `lo..=hi`. An infinity
/// gives the bound on its side, a NaN gives 0.
pub open spec fn truncation_clamped(b: u32, lo: int, hi: int) -> int {
    if is_nan(b) {
        0
    } else if is_infinite(b) {
        if is_negative(b) {
            lo
        } else {
            hi
        }
    } else {
        clamp(with_sign(b, whole(b)), lo, hi)
    }
}

/// A number rounded to the nearest integer, halves away from zero, and
/// clamped into `lo..=hi`. An infinity gives the bound on its side, a NaN
/// gives 0.
pub open spec fn rounding_clamped(b: u32, lo: int, hi: int) -> int {
    if is_nan(b) {
        0
    } else if is_infinite(b) {
        if is_negative(b) {
            lo
        } else {
            hi
        }
    } else {
        clamp(with_sign(b, nearest(b)), lo, hi)
    }
}

/// `2^k`, as a machine integer.
fn power_of_two(k: u32) -> (r: u64)
    requires
        k < 64,
    ensures
        r == pow2(k as nat),
{
    let mut r: u64 = 1;
    let mut i: u32 = 0;
    proof {
        lemma2_to64();
    }
    while i < k
        invariant
            i <= k,
            k < 64,
            r == pow2(i as nat),
        decreases k - i,
    {
        proof {
            lemma_pow2_unfold((i + 1) as nat);
            if i + 1 < 64 {
                lemma_pow2_strictly_increases((i + 1) as nat, 64);
            }
            lemma2_to64();
        }
        r = r * 2;
        i += 1;
    }
    r
}

/// From this value on, an integer part is reported as this value.
const HUGE: u64 = 0x8000_0000_0000_0000;

/// The ranges of the fields of a pattern, and how they make it up.
proof fn lemma_fields(b: u32)
    ensures
        0 <= magnitude_bits(b) < 0x8000_0000,
        0 <= exponent_field(b) < 256,
        0 <= fraction_field(b) < 0x80_0000,
        fraction_field(b) == magnitude_bits(b) % 0x80_0000,
        magnitude_bits(b) == exponent_field(b) * 0x80_0000 + fraction_field(b),
        is_finite(b) <==> exponent_field(b) < 255,
        0 <= significand(b) < 0x100_0000,
        exponent_field(b) > 0 ==> significand(b) >= 0x80_0000,
{
}

/// A product with a power of two from `2^40` on reaches `HUGE`; one with
/// `2^16` or more is a multiple of 65536.
proof fn lemma_scaled_up(sig: int, e: nat)
    requires
        0x80_0000 <= sig < 0x100_0000,
    ensures
        e >= 40 ==> sig * pow2(e) >= HUGE,
        e < 40 ==> sig * pow2(e) < HUGE,
        e >= 16 ==> (sig * pow2(e)) % 0x1_0000 == 0,
{
    lemma2_to64();
    lemma2_to64_rest();
    if e >= 40 {
        lemma_pow2_adds(40, (e - 40) as nat);
        lemma_pow2_pos((e - 40) as nat);
        let rest = pow2((e - 40) as nat) as int;
        assert(sig * (0x100_0000_0000 * rest) >= 0x8000_0000_0000_0000) by (nonlinear_arith)
            requires
                rest >= 1,
                sig >= 0x80_0000,
        ;
    } else {
        if e < 39 {
            lemma_pow2_strictly_increases(e, 39);
        }
        let p = pow2(e) as int;
        assert(sig * p < 0x8000_0000_0000_0000) by (nonlinear_arith)
            requires
                0 <= sig < 0x100_0000,
                0 < p <= 0x80_0000_0000,
        ;
    }
    if e >= 16 {
        lemma_pow2_adds(16, (e - 16) as nat);
        let rest = pow2((e - 16) as nat) as int;
        assert(sig * (0x1_0000 * rest) == 0x1_0000 * (sig * rest)) by (nonlinear_arith);
        lemma_mod_multiples_basic(sig * rest, 0x1_0000);
        assert(0x1_0000 * (sig * rest) == (sig * rest) * 0x1_0000) by (nonlinear_arith);
    }
}

/// `⌊|x|⌋` of a finite pattern, or `HUGE` where that is `HUGE` or more.
fn whole_part(b: u32) -> (r: u64)
    requires
        is_finite(b),
    ensures
        whole(b) < HUGE ==> r == whole(b),
        whole(b) >= HUGE ==> r == HUGE && binary_exponent(b) >= 40,
        whole(b) >= 0,
{
    let m: u32 = b % 0x8000_0000;
    let exp: u32 = m / 0x80_0000;
    let frac: u32 = m % 0x80_0000;
    let sig: u64 = 0x80_0000 + frac as u64;
    proof {
        lemma_fields(b);
        lemma2_to64();
        lemma2_to64_rest();
    }
    if exp < 127 {
        proof {
            let k = (-binary_exponent(b)) as nat;
            assert(k >= 24);
            if k > 24 {
                lemma_pow2_strictly_increases(24, k);
            }
            lemma_basic_div(significand(b), pow2(k) as int);
        }
        0
    } else if exp < 150 {
        let k: u32 = 150 - exp;
        let p: u64 = power_of_two(k);
        proof {
            lemma_pow2_pos(k as nat);
            lemma_div_pos_is_pos(sig as int, p as int);
            lemma_div_is_ordered_by_denominator(sig as int, 1, p as int);
        }
        sig / p
    } else if exp < 190 {
        let e: u32 = exp - 150;
        let p: u64 = power_of_two(e);
        proof {
            lemma_scaled_up(sig as int, e as nat);
            lemma_pow2_pos(e as nat);
            lemma_mul_nonnegative(sig as int, p as int);
        }
        sig * p
    } else {
        proof {
            lemma_scaled_up(sig as int, (exp - 150) as nat);
        }
        HUGE
    }
}

/// `⌊|x| + 1/2⌋` of a finite pattern, or `HUGE` where that is `HUGE` or more.
fn nearest_part(b: u32) -> (r: u64)
    requires
        is_finite(b),
    ensures
        nearest(b) < HUGE ==> r == nearest(b),
        nearest(b) >= HUGE ==> r == HUGE && binary_exponent(b) >= 40,
        nearest(b) >= 0,
{
    let m: u32 = b % 0x8000_0000;
    let exp: u32 = m / 0x80_0000;
    let frac: u32 = m % 0x80_0000;
    let sig: u64 = 0x80_0000 + frac as u64;
    proof {
        lemma_fields(b);
        lemma2_to64();
        lemma2_to64_rest();
    }
    if exp < 126 {
        proof {
            let k = (-binary_exponent(b)) as nat;
            assert(k >= 25);
            if k > 25 {
                lemma_pow2_strictly_increases(25, k);
            }
            lemma_basic_div(2 * significand(b) + pow2(k), 2 * pow2(k) as int);
        }
        0
    } else if exp < 150 {
        let k: u32 = 150 - exp;
        let p: u64 = power_of_two(k);
        proof {
            lemma_pow2_pos(k as nat);
            if k < 24 {
                lemma_pow2_strictly_increases(k as nat, 24);
            }
            lemma_div_pos_is_pos((2 * sig + p) as int, (2 * p) as int);
            lemma_div_is_ordered_by_denominator((2 * sig + p) as int, 1, (2 * p) as int);
        }
        (2 * sig + p) / (2 * p)
    } else if exp < 190 {
        let e: u32 = exp - 150;
        let p: u64 = power_of_two(e);
        proof {
            lemma_scaled_up(sig as int, e as nat);
            lemma_pow2_pos(e as nat);
            lemma_mul_nonnegative(sig as int, p as int);
        }
        sig * p
    } else {
        proof {
            lemma_scaled_up(sig as int, (exp - 150) as nat);
        }
        HUGE
    }
}

/// A number below twice 65536 leaves itself, or itself less 65536.
proof fn lemma_mod_once(y: int)
    requires
        0 <= y < 0x2_0000,
    ensures
        y % 0x1_0000 == if y < 0x1_0000 {
            y
        } else {
            y - 0x1_0000
        },
{
    if y < 0x1_0000 {
        lemma_fundamental_div_mod_converse(y, 0x1_0000, 0, y);
    } else {
        lemma_fundamental_div_mod_converse(y, 0x1_0000, 1, y - 0x1_0000);
    }
}

/// The low 16 bits of `n` and of `-n`, from the remainder of `n`.
proof fn lemma_low16(n: int)
    requires
        n >= 0,
    ensures
        low16(n) == if n % 0x1_0000 >= 0x8000 {
            n % 0x1_0000 - 0x1_0000
        } else {
            n % 0x1_0000
        },
        low16(-n) == if n % 0x1_0000 > 0x8000 {
            0x1_0000 - n % 0x1_0000
        } else {
            -(n % 0x1_0000)
        },
{
    let q = n / 0x1_0000;
    let low = n % 0x1_0000;
    lemma_fundamental_div_mod(n, 0x1_0000);
    lemma_mod_multiples_vanish(q, low + 0x8000, 0x1_0000);
    assert(n + 0x8000 == 0x1_0000 * q + (low + 0x8000));
    lemma_mod_once(low + 0x8000);
    lemma_mod_multiples_vanish(-q - 1, 0x1_8000 - low, 0x1_0000);
    assert(-n + 0x8000 == 0x1_0000 * (-q - 1) + (0x1_8000 - low));
    lemma_mod_once(0x1_8000 - low);
}

/// A number cut off toward zero, keeping the low 16 bits of the integer.
pub fn to_i16_wrapping(b: u32) -> (r: i16)
    ensures
        r == truncation_wrapped(b),
{
    if b % 0x8000_0000 >= 0x7f80_0000 {
        return 0;
    }
    let w: u64 = whole_part(b);
    let low: u64 = w % 0x1_0000;
    proof {
        if whole(b) >= HUGE {
            lemma_fields(b);
            lemma_scaled_up(significand(b), binary_exponent(b) as nat);
        }
        assert(low == whole(b) % 0x1_0000);
        lemma_low16(whole(b));
    }
    if b >= 0x8000_0000 {
        if low > 0x8000 {
            (0x1_0000 - low) as i16
        } else {
            (-(low as i64)) as i16
        }
    } else {
        if low >= 0x8000 {
            (low as i64 - 0x1_0000) as i16
        } else {
            low as i16
        }
    }
}

/// A number cut off toward zero and clamped into the range of `i16`.
pub fn to_i16_saturating(b: u32) -> (r: i16)
    ensures
        r == truncation_clamped(b, i16::MIN as int, i16::MAX as int),
{
    let m: u32 = b % 0x8000_0000;
    if m > 0x7f80_0000 {
        0
    } else if m == 0x7f80_0000 {
        if b >= 0x8000_0000 {
            i16::MIN
        } else {
            i16::MAX
        }
    } else {
        let w: u64 = whole_part(b);
        if b >= 0x8000_0000 {
            if w >= 0x8000 {
                i16::MIN
            } else {
                (-(w as i64)) as i16
            }
        } else {
            if w >= 0x7fff {
                i16::MAX
            } else {
                w as i16
            }
        }
    }
}

/// A number cut off toward zero and clamped into the range of `i64`.
pub fn to_i64_saturating(b: u32) -> (r: i64)
    ensures
        r == truncation_clamped(b, i64::MIN as int, i64::MAX as int),
{
    let m: u32 = b % 0x8000_0000;
    if m > 0x7f80_0000 {
        0
    } else if m == 0x7f80_0000 {
        if b >= 0x8000_0000 {
            i64::MIN
        } else {
            i64::MAX
        }
    } else {
        let w: u64 = whole_part(b);
        if b >= 0x8000_0000 {
            if w >= HUGE {
                i64::MIN
            } else {
                -(w as i64)
            }
        } else {
            if w >= HUGE {
                i64::MAX
            } else {
                w as i64
            }
        }
    }
}

/// A number rounded to the nearest integer, halves away from zero, and
/// clamped into the range of `i32`.
pub fn round_to_i32(b: u32) -> (r: i32)
    ensures
        r == rounding_clamped(b, i32::MIN as int, i32::MAX as int),
{
    let m: u32 = b % 0x8000_0000;
    if m > 0x7f80_0000 {
        0
    } else if m == 0x7f80_0000 {
        if b >= 0x8000_0000 {
            i32::MIN
        } else {
            i32::MAX
        }
    } else {
        let w: u64 = nearest_part(b);
        if b >= 0x8000_0000 {
            if w >= 0x8000_0000 {
                i32::MIN
            } else {
                (-(w as i64)) as i32
            }
        } else {
            if w >= 0x7fff_ffff {
                i32::MAX
            } else {
                w as i32
            }
        }
    }
}

/// The number of binary digits of `n`.
pub open spec fn bit_length(n: nat) -> nat
    decreases n,
{
    if n == 0 {
        0
    } else {
        1 + bit_length(n / 2)
    }
}

/// The pattern of `n / 2^k`, for `n < 2^24` and `k <= 126`: every such
/// quotient is a binary32 number.
pub open spec fn dyadic(n: nat, k: nat) -> u32 {
    if n == 0 {
        0
    } else {
        let len = bit_length(n);
        ((126 + len - k) * 0x80_0000 + (n * pow2((24 - len) as nat) - 0x80_0000)) as u32
    }
}

/// The magnitude of a finite pattern, counted in units of `2^-149`, the
/// smallest positive binary32 number.
pub open spec fn magnitude(b: u32) -> int {
    significand(b) * pow2((binary_exponent(b) + 149) as nat)
}

/// `n` lies between the two powers of two that its digit count names.
pub proof fn lemma_bit_length(n: nat)
    ensures
        n == 0 ==> bit_length(n) == 0,
        n > 0 ==> bit_length(n) >= 1 && pow2((bit_length(n) - 1) as nat) <= n < pow2(
            bit_length(n),
        ),
    decreases n,
{
    lemma2_to64();
    if n > 0 {
        let m = n / 2;
        lemma_bit_length(m);
        if m > 0 {
            lemma_pow2_unfold(bit_length(m));
            lemma_pow2_unfold((bit_length(m) + 1) as nat);
        }
    }
}

/// A number below `2^24` has at most 24 digits.
proof fn lemma_bit_length_small(n: nat)
    requires
        n < 0x100_0000,
    ensures
        bit_length(n) <= 24,
        n > 0 ==> 0x80_0000 <= n * pow2((24 - bit_length(n)) as nat) < 0x100_0000,
{
    lemma2_to64();
    lemma_bit_length(n);
    if n > 0 {
        let len = bit_length(n);
        if len > 24 {
            if len > 25 {
                lemma_pow2_strictly_increases(24, (len - 1) as nat);
            }
            assert(false);
        }
        let up = pow2((24 - len) as nat) as int;
        let lo = pow2((len - 1) as nat) as int;
        let hi = pow2(len) as int;
        lemma_pow2_adds((len - 1) as nat, (24 - len) as nat);
        lemma_pow2_adds(len, (24 - len) as nat);
        lemma_pow2_pos((24 - len) as nat);
        assert(lo * up <= n * up) by (nonlinear_arith)
            requires
                lo <= n,
                up > 0,
        ;
        assert(n * up < hi * up) by (nonlinear_arith)
            requires
                n < hi,
                up > 0,
        ;
    }
}

/// `dyadic(n, k)` is finite, not negative, and stands for exactly `n / 2^k`.
pub proof fn lemma_dyadic_exact(n: nat, k: nat)
    requires
        n < 0x100_0000,
        k <= 126,
    ensures
        is_finite(dyadic(n, k)),
        !is_negative(dyadic(n, k)),
        magnitude(dyadic(n, k)) * pow2(k) == n * pow2(149),
{
    lemma2_to64();
    if n > 0 {
        lemma_bit_length_small(n);
        let len = bit_length(n);
        let field = 126 + len - k;
        let sig = n * pow2((24 - len) as nat);
        let r = dyadic(n, k);
        assert(r == field * 0x80_0000 + (sig - 0x80_0000));
        assert(exponent_field(r) == field);
        assert(fraction_field(r) == sig - 0x80_0000);
        assert(significand(r) == sig);
        assert(binary_exponent(r) + 149 == 125 + len - k);
        let a = pow2((24 - len) as nat) as int;
        let b = pow2((125 + len - k) as nat) as int;
        let c = pow2(k) as int;
        lemma_pow2_adds((24 - len) as nat, (125 + len - k) as nat);
        assert((24 - len) as nat + (125 + len - k) as nat == (149 - k) as nat);
        assert(a * b == pow2((149 - k) as nat));
        lemma_pow2_adds((149 - k) as nat, k);
        assert((149 - k) as nat + k == 149);
        assert((a * b) * c == pow2(149));
        assert(n * a * b * c == n * ((a * b) * c)) by (nonlinear_arith);
        assert(magnitude(r) == sig * b);
        assert(magnitude(r) * c == n * pow2(149)) by (nonlinear_arith)
            requires
                magnitude(r) == (n * a) * b,
                (a * b) * c == pow2(149),
        ;
    } else {
        assert(significand(0) == 0);
        assert(magnitude(0) == 0) by (nonlinear_arith)
            requires
                significand(0) == 0,
                magnitude(0) == significand(0) * pow2((binary_exponent(0) + 149) as nat),
        ;
        assert(magnitude(0) * pow2(k) == n * pow2(149)) by (nonlinear_arith)
            requires
                magnitude(0) == 0,
                n == 0,
        ;
    }
}

/// The binary32 number `n / 2^k`.
pub fn from_ratio(n: u32, k: u32) -> (r: u32)
    requires
        n < 0x100_0000,
        k <= 126,
    ensures
        r == dyadic(n as nat, k as nat),
{
    if n == 0 {
        return 0;
    }
    let mut len: u32 = 0;
    let mut rest: u32 = n;
    proof {
        lemma_bit_length_small(n as nat);
    }
    while rest > 0
        invariant
            bit_length(n as nat) == len + bit_length(rest as nat),
            bit_length(n as nat) <= 24,
        decreases rest,
    {
        rest = rest / 2;
        len += 1;
    }
    let p: u64 = power_of_two(24 - len);
    let sig: u64 = (n as u64) * p;
    ((126 + len - k) as u64 * 0x80_0000 + (sig - 0x80_0000)) as u32
}

/// The number that a finite pattern stands for, counted in units of `2^-149`.
pub open spec fn number(b: u32) -> int {
    with_sign(b, magnitude(b))
}

/// Of two finite patterns, the one with the larger bits below the sign has
/// the larger magnitude.
proof fn lemma_magnitude_grows(a: u32, b: u32)
    requires
        is_finite(a),
        is_finite(b),
        magnitude_bits(a) < magnitude_bits(b),
    ensures
        0 <= magnitude(a) < magnitude(b),
{
    lemma_fields(a);
    lemma_fields(b);
    lemma2_to64();
    let ea = exponent_field(a);
    let eb = exponent_field(b);
    let sa = significand(a);
    let sb = significand(b);
    let pa = pow2((binary_exponent(a) + 149) as nat) as int;
    let pb = pow2((binary_exponent(b) + 149) as nat) as int;
    lemma_pow2_pos((binary_exponent(a) + 149) as nat);
    lemma_pow2_pos((binary_exponent(b) + 149) as nat);
    assert(sa * pa >= 0) by (nonlinear_arith)
        requires
            sa >= 0,
            pa > 0,
    ;
    if ea == eb {
        assert(sa * pa < sb * pa) by (nonlinear_arith)
            requires
                sa < sb,
                pa > 0,
        ;
    } else if ea == 0 {
        assert(sb * pb >= 0x80_0000) by (nonlinear_arith)
            requires
                sb >= 0x80_0000,
                pb >= 1,
        ;
        assert(sa * pa == sa) by (nonlinear_arith)
            requires
                pa == 1,
        ;
    } else {
        assert(ea < eb);
        if ea < eb - 1 {
            lemma_pow2_strictly_increases(ea as nat, (eb - 1) as nat);
        }
        lemma_pow2_unfold(ea as nat);
        assert(sa * pa < 0x100_0000 * pa) by (nonlinear_arith)
            requires
                sa < 0x100_0000,
                pa > 0,
        ;
        assert(0x80_0000 * pb <= sb * pb) by (nonlinear_arith)
            requires
                0x80_0000 <= sb,
                pb > 0,
        ;
        assert(2 * pa <= pb);
    }
}

/// Finite patterns are ordered by `rank` as the numbers they stand for, and
/// two of them have one rank exactly where they stand for one number.
pub proof fn lemma_rank_is_numeric_order(a: u32, b: u32)
    requires
        is_finite(a),
        is_finite(b),
    ensures
        rank(a) < rank(b) <==> number(a) < number(b),
        rank(a) == rank(b) <==> number(a) == number(b),
{
    lemma_fields(a);
    lemma_fields(b);
    lemma_pow2_pos((binary_exponent(a) + 149) as nat);
    lemma_pow2_pos((binary_exponent(b) + 149) as nat);
    lemma_mul_nonnegative(significand(a), pow2((binary_exponent(a) + 149) as nat) as int);
    lemma_mul_nonnegative(significand(b), pow2((binary_exponent(b) + 149) as nat) as int);
    if magnitude_bits(a) < magnitude_bits(b) {
        lemma_magnitude_grows(a, b);
    } else if magnitude_bits(b) < magnitude_bits(a) {
        lemma_magnitude_grows(b, a);
    } else {
        assert(exponent_field(a) == exponent_field(b));
        assert(fraction_field(a) == fraction_field(b));
    }
    if magnitude_bits(a) == 0 {
        assert(significand(a) == 0);
        assert(magnitude(a) == 0) by (nonlinear_arith)
            requires
                significand(a) == 0,
                magnitude(a) == significand(a) * pow2((binary_exponent(a) + 149) as nat),
        ;
    } else {
        lemma_magnitude_grows(0, a);
    }
    if magnitude_bits(b) == 0 {
        assert(significand(b) == 0);
        assert(magnitude(b) == 0) by (nonlinear_arith)
            requires
                significand(b) == 0,
                magnitude(b) == significand(b) * pow2((binary_exponent(b) + 149) as nat),
        ;
    } else {
        lemma_magnitude_grows(0, b);
    }
}

/// `dyadic(n, k)` is the only finite pattern that is not negative and stands
/// for `n / 2^k`.
pub proof fn lemma_dyadic_unique(b: u32, n: nat, k: nat)
    requires
        n < 0x100_0000,
        k <= 126,
        is_finite(b),
        !is_negative(b),
        magnitude(b) * pow2(k) == n * pow2(149),
    ensures
        b == dyadic(n, k),
{
    let d = dyadic(n, k);
    lemma_dyadic_exact(n, k);
    lemma_pow2_pos(k);
    let p = pow2(k) as int;
    assert(magnitude(b) == magnitude(d)) by (nonlinear_arith)
        requires
            magnitude(b) * p == magnitude(d) * p,
            p > 0,
    ;
    lemma_rank_is_numeric_order(b, d);
}

/// The named patterns stand for the numbers in their names.
pub proof fn lemma_named_patterns()
    ensures
        ZERO == dyadic(0, 0),
        ONE == dyadic(1, 0),
        TWO == dyadic(2, 0),
        NEG_ONE == ONE + 0x8000_0000,
        PI == dyadic(13176795, 22),
        is_infinite(INFINITY) && !is_negative(INFINITY),
        is_nan(NAN),
{
    lemma2_to64();
    reveal_with_fuel(bit_length, 25);
    assert(bit_length(1) == 1);
    assert(bit_length(2) == 2);
    assert(bit_length(13176795) == 24);
}

} // verus!
