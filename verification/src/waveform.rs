//! A single cycle of a periodic signal.

use vstd::prelude::*;
use crate::arith::{div_bits, mul_bits, product, quotient, sin_bits, sine};
use crate::binary32::{
    at_least, at_most, dyadic, from_ratio, is_nan, is_zero, larger, pick_larger, rank,
    test_at_least, test_at_most, test_zero, to_i16_saturating, truncation_clamped, NAN, NEG_ONE,
    ONE, PI, TWO,
};

pub mod operation;

verus! {

/// One cycle of a periodic signal: 2048 samples in order, each the bit
/// pattern of a binary32 number. Samples are meant to lie in [-1, 1], but
/// nothing enforces it.
#[derive(Clone, Debug)]
pub struct Waveform {
    pub waveform: Box<[u32; 2048]>,
}

impl View for Waveform {
    type V = Seq<u32>;

    open spec fn view(&self) -> Seq<u32> {
        self.waveform@
    }
}

/// The largest sample of a cycle, by `larger` from the first sample to the
/// last: NaNs are passed over, and a cycle of nothing but NaNs has `NAN`.
pub open spec fn peak(s: Seq<u32>) -> u32
    decreases s.len(),
{
    if s.len() == 0 {
        NAN
    } else {
        larger(s.last(), peak(s.drop_last()))
    }
}

/// A cycle divided by its peak, sample by sample; unchanged where the peak
/// is a zero.
pub open spec fn normalized(s: Seq<u32>) -> Seq<u32> {
    if is_zero(peak(s)) {
        s
    } else {
        Seq::new(s.len(), |i: int| quotient(s[i], peak(s)))
    }
}

/// `cycle` is what the generator `f` makes of the 2048 phases of a cycle:
/// sample `s` is a result of `f` at the phase `s / 2048`.
pub open spec fn generated<F: Fn(u32) -> u32>(f: F, cycle: Seq<u32>) -> bool {
    forall|s: int|
        0 <= s < 2048 ==> call_ensures(f, (dyadic(s as nat, 11),), #[trigger] cycle[s])
}

/// The 16-bit sample for one amplitude, clamped: 1 and above gives 32767,
/// -1 and below gives -32768, anything between is scaled by 32767 and cut
/// off toward zero. A NaN gives 0.
pub open spec fn pcm_clamped(w: u32) -> int {
    if at_least(w, ONE) {
        i16::MAX as int
    } else if at_most(w, NEG_ONE) {
        i16::MIN as int
    } else {
        truncation_clamped(product(w, dyadic(32767, 0)), i16::MIN as int, i16::MAX as int)
    }
}

/// The peak of a cycle in which some sample is no NaN is such a sample, and
/// no sample that is a number is larger. The peak of a cycle of nothing but
/// NaNs is `NAN`.
pub proof fn lemma_peak(s: Seq<u32>)
    ensures
        (forall|i: int| 0 <= i < s.len() ==> is_nan(#[trigger] s[i])) ==> peak(s) == NAN,
        (exists|i: int| 0 <= i < s.len() && !is_nan(#[trigger] s[i])) ==> {
            &&& !is_nan(peak(s))
            &&& exists|i: int| 0 <= i < s.len() && #[trigger] s[i] == peak(s)
            &&& forall|i: int|
                0 <= i < s.len() && !is_nan(#[trigger] s[i]) ==> rank(s[i]) <= rank(peak(s))
        },
    decreases s.len(),
{
    if s.len() > 0 {
        let front = s.drop_last();
        lemma_peak(front);
        assert(forall|i: int| 0 <= i < front.len() ==> front[i] == s[i]);
        if exists|i: int| 0 <= i < s.len() && !is_nan(#[trigger] s[i]) {
            if exists|i: int| 0 <= i < front.len() && !is_nan(#[trigger] front[i]) {
                let at = choose|i: int| 0 <= i < front.len() && #[trigger] front[i] == peak(front);
                assert(s[at] == peak(front));
                assert(s[s.len() - 1] == s.last());
            } else {
                assert(!is_nan(s.last())) by {
                    let i = choose|i: int| 0 <= i < s.len() && !is_nan(#[trigger] s[i]);
                    if i < front.len() {
                        assert(!is_nan(front[i]));
                    }
                }
                assert(peak(front) == NAN);
                assert(s[s.len() - 1] == peak(s));
                assert forall|i: int| 0 <= i < s.len() && !is_nan(#[trigger] s[i]) implies rank(
                    s[i],
                ) <= rank(peak(s)) by {
                    if i < front.len() {
                        assert(is_nan(front[i]));
                    }
                }
            }
        } else {
            assert forall|i: int| 0 <= i < front.len() implies is_nan(#[trigger] front[i]) by {
                assert(is_nan(s[i]));
            }
            assert(is_nan(s[s.len() - 1]));
        }
    }
}

/// The peak of a cycle of zeros is a zero, so normalizing leaves the cycle
/// as it is.
pub proof fn lemma_normalized_silence(s: Seq<u32>)
    requires
        s.len() > 0,
        forall|i: int| 0 <= i < s.len() ==> is_zero(#[trigger] s[i]),
    ensures
        is_zero(peak(s)),
        normalized(s) == s,
    decreases s.len(),
{
    let front = s.drop_last();
    assert(is_zero(s[s.len() - 1]));
    if front.len() > 0 {
        assert forall|i: int| 0 <= i < front.len() implies is_zero(#[trigger] front[i]) by {
            assert(front[i] == s[i]);
        }
        lemma_normalized_silence(front);
    } else {
        assert(is_nan(NAN));
    }
    assert(is_zero(larger(s.last(), peak(front))));
}

impl Waveform {
    /// A cycle repeats every 2048 positions, and the position before the
    /// first is the last.
    pub proof fn lemma_periodic(&self, x: int)
        ensures
            self.evaluate(x) == self.evaluate(x + 2048),
            self.evaluate(-1) == self.evaluate(2047),
    {
    }

    /// The sample at any phase: the cycle repeats every 2048 positions, in
    /// both directions.
    pub open spec fn evaluate(&self, x: int) -> u32 {
        self@[x % 2048]
    }

    pub fn new(w: [u32; 2048]) -> (r: Waveform)
        ensures
            r@ == w@,
    {
        Waveform { waveform: Box::new(w) }
    }

    /// The cycle whose sample `s` is what `f` makes of the phase `s / 2048`.
    pub fn from_fn<F>(f: F) -> (r: Waveform) where F: Fn(u32) -> u32
        requires
            forall|s: nat| s < 2048 ==> call_requires(f, (#[trigger] dyadic(s, 11),)),
        ensures
            generated(f, r@),
    {
        let mut wave: [u32; 2048] = [0u32; 2048];
        let mut s: usize = 0;
        while s < 2048
            invariant
                s <= 2048,
                forall|s: nat| s < 2048 ==> call_requires(f, (#[trigger] dyadic(s, 11),)),
                forall|i: int|
                    0 <= i < s ==> call_ensures(f, (dyadic(i as nat, 11),), #[trigger] wave@[i]),
            decreases 2048 - s,
        {
            let phase: u32 = from_ratio(s as u32, 11);
            wave[s] = f(phase);
            s += 1;
        }
        Waveform::new(wave)
    }

    /// The silent cycle.
    pub fn empty() -> (r: Waveform)
        ensures
            forall|i: int| 0 <= i < 2048 ==> r@[i] == 0,
    {
        let w: [u32; 2048] = [0u32; 2048];
        Waveform::new(w)
    }

    /// One period of the sine: sample `s` is `sin(s / 2048 × 2 × π)`.
    pub fn sin() -> (r: Waveform)
        ensures
            forall|s: int|
                0 <= s < 2048 ==> #[trigger] r@[s] == sine(
                    product(product(dyadic(s as nat, 11), TWO), PI),
                ),
    {
        let turn = |phase: u32| -> (v: u32)
            ensures
                v == sine(product(product(phase, TWO), PI)),
            { sin_bits(mul_bits(mul_bits(phase, TWO), PI)) };
        Waveform::from_fn(turn)
    }

    /// The cycle whose sample `s` is `sin(s / 1024 × π)`. For all its name it
    /// is no sawtooth: it is taken over the sample index, and is a sine.
    pub fn saw() -> (r: Waveform)
        ensures
            forall|s: int|
                0 <= s < 2048 ==> #[trigger] r@[s] == sine(product(dyadic(s as nat, 10), PI)),
    {
        let mut w: [u32; 2048] = [0u32; 2048];
        let mut s: usize = 0;
        while s < 2048
            invariant
                s <= 2048,
                forall|i: int|
                    0 <= i < s ==> #[trigger] w@[i] == sine(product(dyadic(i as nat, 10), PI)),
            decreases 2048 - s,
        {
            w[s] = sin_bits(mul_bits(from_ratio(s as u32, 10), PI));
            s += 1;
        }
        Waveform::new(w)
    }

    /// The cycle as 16-bit samples, clamped to the range that 16 bits hold.
    pub fn render(&self) -> (r: Vec<i16>)
        ensures
            r@.len() == 2048,
            forall|i: int| 0 <= i < 2048 ==> #[trigger] r@[i] == pcm_clamped(self@[i]),
    {
        let full: u32 = from_ratio(32767, 0);
        let mut out: Vec<i16> = Vec::with_capacity(2048);
        let mut i: usize = 0;
        while i < 2048
            invariant
                i <= 2048,
                full == dyadic(32767, 0),
                out@.len() == i,
                forall|k: int| 0 <= k < i ==> #[trigger] out@[k] == pcm_clamped(self@[k]),
            decreases 2048 - i,
        {
            let w: u32 = self.waveform[i];
            let v: i16 = if test_at_least(w, ONE) {
                i16::MAX
            } else if test_at_most(w, NEG_ONE) {
                i16::MIN
            } else {
                to_i16_saturating(mul_bits(w, full))
            };
            out.push(v);
            i += 1;
        }
        out
    }

    /// The peak of the cycle.
    pub fn peak_sample(&self) -> (m: u32)
        ensures
            m == peak(self@),
    {
        let mut m: u32 = NAN;
        let mut i: usize = 0;
        assert(self@.take(0) =~= Seq::<u32>::empty());
        while i < 2048
            invariant
                i <= 2048,
                m == peak(self@.take(i as int)),
            decreases 2048 - i,
        {
            assert(self@.take(i + 1).drop_last() =~= self@.take(i as int));
            m = pick_larger(self.waveform[i], m);
            i += 1;
        }
        assert(self@.take(2048) =~= self@);
        m
    }

    /// Divides every sample by the peak of the cycle. A cycle whose peak is
    /// a zero is left as it is.
    pub fn normalize(&mut self)
        ensures
            final(self)@ == normalized(old(self)@),
            (forall|i: int| 0 <= i < 2048 ==> is_zero(#[trigger] old(self)@[i])) ==> final(self)@
                == old(self)@,
    {
        proof {
            if forall|i: int| 0 <= i < 2048 ==> is_zero(#[trigger] self@[i]) {
                lemma_normalized_silence(self@);
            }
        }
        let max: u32 = self.peak_sample();
        if test_zero(max) {
            return ;
        }
        let ghost before = self@;
        let mut i: usize = 0;
        while i < 2048
            invariant
                i <= 2048,
                before.len() == 2048,
                forall|k: int|
                    0 <= k < 2048 ==> #[trigger] self@[k] == if k < i {
                        quotient(before[k], max)
                    } else {
                        before[k]
                    },
            decreases 2048 - i,
        {
            let ghost mid = self@;
            let v: u32 = div_bits(self.waveform[i], max);
            self.waveform[i] = v;
            assert(self@ == mid.update(i as int, v));
            i += 1;
        }
        assert(self@ =~= normalized(before));
    }

    /// Multiplies every sample by `sf`.
    pub fn scale(&mut self, sf: u32)
        ensures
            forall|i: int|
                0 <= i < 2048 ==> #[trigger] final(self)@[i] == product(old(self)@[i], sf),
    {
        let ghost before = self@;
        let mut i: usize = 0;
        while i < 2048
            invariant
                i <= 2048,
                before.len() == 2048,
                forall|k: int|
                    0 <= k < 2048 ==> #[trigger] self@[k] == if k < i {
                        product(before[k], sf)
                    } else {
                        before[k]
                    },
            decreases 2048 - i,
        {
            let ghost mid = self@;
            let v: u32 = mul_bits(self.waveform[i], sf);
            self.waveform[i] = v;
            assert(self@ == mid.update(i as int, v));
            i += 1;
        }
    }

    /// Reverses the order of the samples.
    pub fn invert(&mut self)
        ensures
            forall|i: int| 0 <= i < 2048 ==> #[trigger] final(self)@[i] == old(self)@[2047 - i],
    {
        let ghost before = self@;
        let mut i: usize = 0;
        while i < 1024
            invariant
                i <= 1024,
                before.len() == 2048,
                forall|k: int|
                    0 <= k < 2048 ==> #[trigger] self@[k] == if k < i || 2048 - i <= k {
                        before[2047 - k]
                    } else {
                        before[k]
                    },
            decreases 1024 - i,
        {
            let ghost mid = self@;
            let temp: u32 = self.waveform[i];
            let other: u32 = self.waveform[2047 - i];
            self.waveform[i] = other;
            assert(self@ == mid.update(i as int, other));
            let ghost swapped = self@;
            self.waveform[2047 - i] = temp;
            assert(self@ == swapped.update(2047 - i, temp));
            i += 1;
        }
    }

    /// The sample at phase `x`, for any `x`.
    pub fn at(&self, x: i64) -> (r: u32)
        ensures
            r == self.evaluate(x as int),
    {
        match x.checked_rem_euclid(2048) {
            Some(i) => self.waveform[i as usize],
            None => self.waveform[0],
        }
    }

    /// The cycle as a periodic function of the sample position.
    pub fn as_fn(&self, x: i32) -> (r: u32)
        ensures
            r == self.evaluate(x as int),
    {
        self.at(x as i64)
    }
}

} // verus!
