//! One slot of a table as an endless stream of samples.

use vstd::prelude::*;
use crate::arith::{count_bits, counted, div_bits, mul_bits, product, quotient};
use crate::binary32::{dyadic, from_ratio, to_i64_saturating, truncation_clamped};
use crate::waveform::Waveform;

verus! {

/// The rate, in samples a second, at which the stream is meant to be played.
pub const ENGINE_RATE: u32 = 48000;

/// Where in the cycle the `n`-th sample of a stream at `freq` cycles a
/// second is read: `freq × n / 48000 × 2048`, each step rounded to binary32,
/// cut off toward zero and wrapped into the cycle.
pub open spec fn read_position(freq: u32, n: usize) -> int {
    truncation_clamped(
        product(
            quotient(product(freq, counted(n as u64)), dyadic(48000, 0)),
            dyadic(2048, 0),
        ),
        i64::MIN as int,
        i64::MAX as int,
    ) % 2048
}

/// A stream that plays one slot of a table over and over, at a frequency.
/// The slot stays the same for the whole stream: the table is not swept.
#[derive(Clone, Debug)]
pub struct WtWave {
    freq: u32,
    index: u8,
    wt: [Waveform; 256],
    num_sample: usize,
}

impl WtWave {
    /// The frequency of the stream, in cycles a second.
    pub closed spec fn frequency(&self) -> u32 {
        self.freq
    }

    /// The cycle that the stream plays.
    pub closed spec fn cycle(&self) -> Seq<u32> {
        self.wt@[self.index as int]@
    }

    /// How many samples the stream has given, wrapping around at the end of
    /// `usize`.
    pub closed spec fn given(&self) -> usize {
        self.num_sample
    }

    /// The stream of slot 0 of `wt`, at 440 cycles a second.
    pub fn new(wt: [Waveform; 256]) -> (r: WtWave)
        ensures
            r.frequency() == dyadic(440, 0),
            r.cycle() == wt@[0]@,
            r.given() == 0,
    {
        WtWave { freq: from_ratio(440, 0), index: 0, wt, num_sample: 0 }
    }

    /// The next sample. The stream never ends.
    pub fn next(&mut self) -> (r: Option<u32>)
        ensures
            final(self).frequency() == old(self).frequency(),
            final(self).cycle() == old(self).cycle(),
            final(self).given() == if old(self).given() == usize::MAX {
                0
            } else {
                old(self).given() + 1
            },
            r == Some(
                old(self).cycle()[read_position(old(self).frequency(), final(self).given())],
            ),
    {
        self.num_sample = self.num_sample.wrapping_add(1);
        let turns: u32 = div_bits(
            mul_bits(self.freq, count_bits(self.num_sample as u64)),
            from_ratio(48000, 0),
        );
        let value: i64 = to_i64_saturating(mul_bits(turns, from_ratio(2048, 0)));
        match value.checked_rem_euclid(2048) {
            Some(at) => Some(self.wt[self.index as usize].waveform[at as usize]),
            None => Some(self.wt[self.index as usize].waveform[0]),
        }
    }

    /// The stream has one channel.
    pub fn channels(&self) -> (r: u16)
        ensures
            r == 1,
    {
        1
    }

    pub fn sample_rate(&self) -> (r: u32)
        ensures
            r == ENGINE_RATE,
    {
        ENGINE_RATE
    }

    /// The stream is not cut into frames.
    pub fn current_frame_len(&self) -> (r: Option<usize>)
        ensures
            r.is_none(),
    {
        None
    }
}

} // verus!
