//! 256 cycles in a row, the morph between the first and the last of them,
//! and what goes into the sound file made of them.

use vstd::prelude::*;
use vstd::string::*;
use crate::arith::{add_bits, div_bits, mul_bits, product, quotient, sum};
use crate::binary32::{dyadic, from_ratio, to_i16_wrapping, truncation_wrapped};
use crate::waveform::{generated, normalized, Waveform};

pub mod demo;

verus! {

/// `core::array::from_fn` builds an array from a function of the index.
/// Believed, as its documentation has it: the function may be called on
/// every index below `N`, and element `i` is what it returned for `i`.
pub assume_specification<T, const N: usize, F>[ core::array::from_fn::<T, N, F> ](f: F) -> (r: [
    T;
    N
]) where F: FnMut(usize) -> T
    requires
        forall|i: usize| i < N ==> call_requires(f, (i,)),
    ensures
        forall|i: int| 0 <= i < N ==> call_ensures(f, (i as usize,), #[trigger] r@[i]),
;

/// 256 cycles, addressed by a morph position from 0 to 255, and the name
/// under which the table is written out.
pub struct Wavetable {
    pub wavetable: [Waveform; 256],
    pub name: String,
}

impl View for Wavetable {
    type V = Seq<Seq<u32>>;

    open spec fn view(&self) -> Seq<Seq<u32>> {
        Seq::new(256, |i: int| self.wavetable@[i]@)
    }
}

/// The sample of the morph at position `wt`, between a sample `first` of
/// slot 0 and the sample `last` of slot 255 at the same place:
/// `((255 - wt) × first + wt × last) / 255`, each step rounded to binary32.
pub open spec fn blend(wt: int, first: u32, last: u32) -> u32 {
    quotient(
        sum(
            product(dyadic((255 - wt) as nat, 0), first),
            product(dyadic(wt as nat, 0), last),
        ),
        dyadic(255, 0),
    )
}

/// The cycle of the morph at position `wt`, between the cycles `first` and
/// `last`: sample by sample their blend.
pub open spec fn blended(wt: int, first: Seq<u32>, last: Seq<u32>) -> Seq<u32> {
    Seq::new(2048, |s: int| blend(wt, first[s], last[s]))
}

/// The table of the morph between the first and the last cycle of `table`.
pub open spec fn morphed(table: Seq<Seq<u32>>) -> Seq<Seq<u32>> {
    Seq::new(256, |wt: int| blended(wt, table[0], table[255]))
}

/// Morphing gives back a boundary slot exactly where the blend at that end
/// gives back each of its samples; binary32 rounding does not grant that for
/// every sample. The slots between hold the blend of the two boundary slots
/// as they were before.
pub proof fn lemma_morph_boundaries(table: Wavetable)
    requires
        forall|s: int|
            0 <= s < 2048 ==> blend(0, #[trigger] table@[0][s], table@[255][s]) == table@[0][s],
        forall|s: int|
            0 <= s < 2048 ==> blend(255, table@[0][s], #[trigger] table@[255][s])
                == table@[255][s],
    ensures
        morphed(table@)[0] == table@[0],
        morphed(table@)[255] == table@[255],
        forall|wt: int, s: int|
            1 <= wt <= 254 && 0 <= s < 2048 ==> #[trigger] morphed(table@)[wt][s] == blend(
                wt,
                table@[0][s],
                table@[255][s],
            ),
{
    assert(morphed(table@)[0] =~= table@[0]);
    assert(morphed(table@)[255] =~= table@[255]);
}

/// `cycle` is what `f` makes of the morph position `p / 256`: the cycle of
/// a generator that `f` returns for that position.
pub open spec fn generated_at<F, T>(f: F, p: int, cycle: Seq<u32>) -> bool where
    T: Fn(u32) -> u32,
    F: Fn(u32) -> T,
 {
    exists|g: T| call_ensures(f, (dyadic(p as nat, 8),), g) && #[trigger] generated(g, cycle)
}

/// The 16-bit sample that is written out for one amplitude: the amplitude
/// times 32767, cut off toward zero, and of that integer the low 16 bits.
/// Nothing is clamped, so an amplitude beyond ±1 wraps around.
pub open spec fn pcm_wrapped(s: u32) -> int {
    truncation_wrapped(product(s, dyadic(32767, 0)))
}

/// What a sound file holds: where it goes, its format, and its samples in
/// the order in which they are written.
pub struct PcmFile {
    pub path: String,
    pub channels: u16,
    pub sample_rate: u32,
    pub bits_per_sample: u16,
    pub samples: Vec<i16>,
}

/// The cycle for the morph position `p / 256`.
fn cycle_for<F, T>(f: &F, p: usize) -> (w: Waveform) where T: Fn(u32) -> u32, F: Fn(u32) -> T
    requires
        p < 256,
        call_requires(*f, (dyadic(p as nat, 8),)),
        forall|x: u32, g: T, s: nat|
            #![trigger call_ensures(*f, (x,), g), dyadic(s, 11)]
            call_ensures(*f, (x,), g) && s < 2048 ==> call_requires(g, (dyadic(s, 11),)),
    ensures
        generated_at(*f, p as int, w@),
{
    let g = f(from_ratio(p as u32, 8));
    let ghost chosen = g;
    let w = Waveform::from_fn(g);
    assert(call_ensures(*f, (dyadic((p as int) as nat, 8),), chosen) && generated(chosen, w@));
    w
}

impl Wavetable {
    /// 256 silent cycles under the name "untitled".
    pub fn empty() -> (r: Wavetable)
        ensures
            r.name@ == "untitled"@,
            forall|i: int, j: int| 0 <= i < 256 && 0 <= j < 2048 ==> #[trigger] r@[i][j] == 0,
    {
        let silent = |_i: usize| -> (w: Waveform)
            ensures
                forall|j: int| 0 <= j < 2048 ==> w@[j] == 0,
            { Waveform::empty() };
        let slots: [Waveform; 256] = core::array::from_fn(silent);
        Wavetable::new(slots, String::from_str("untitled"))
    }

    pub fn new(wavetable: [Waveform; 256], name: String) -> (r: Wavetable)
        ensures
            r.wavetable == wavetable,
            r.name == name,
    {
        Wavetable { wavetable, name }
    }

    /// The table whose slot `p` is the cycle of the generator that `f` makes
    /// of the morph position `p / 256`.
    pub fn from_fn<F, T>(f: F, name: String) -> (r: Wavetable) where
        T: Fn(u32) -> u32,
        F: Fn(u32) -> T,

        requires
            forall|p: nat| p < 256 ==> call_requires(f, (#[trigger] dyadic(p, 8),)),
            forall|x: u32, g: T, s: nat|
                #![trigger call_ensures(f, (x,), g), dyadic(s, 11)]
                call_ensures(f, (x,), g) && s < 2048 ==> call_requires(g, (dyadic(s, 11),)),
        ensures
            r.name == name,
            forall|p: int| 0 <= p < 256 ==> #[trigger] generated_at(f, p, r@[p]),
    {
        let make: &F = &f;
        let cycle_at = |p: usize| -> (w: Waveform)
            requires
                p < 256,
            ensures
                generated_at(*make, p as int, w@),
            {
                cycle_for(make, p)
            };
        let slots: [Waveform; 256] = core::array::from_fn(cycle_at);
        Wavetable::new(slots, name)
    }

    pub fn set_name(&mut self, name: String)
        ensures
            final(self).name == name,
            final(self).wavetable == old(self).wavetable,
    {
        self.name = name;
    }

    /// Normalizes every slot by itself.
    pub fn normalize(&mut self)
        ensures
            final(self).name == old(self).name,
            forall|i: int| 0 <= i < 256 ==> #[trigger] final(self)@[i] == normalized(old(self)@[i]),
    {
        let ghost before = self.wavetable@;
        let mut i: usize = 0;
        while i < 256
            invariant
                i <= 256,
                before.len() == 256,
                self.name == old(self).name,
                before == old(self).wavetable@,
                forall|k: int|
                    0 <= k < 256 ==> (#[trigger] self.wavetable@[k])@ == if k < i {
                        normalized(before[k]@)
                    } else {
                        before[k]@
                    },
            decreases 256 - i,
        {
            let mut slot: Waveform = Waveform::new(*self.wavetable[i].waveform);
            slot.normalize();
            let ghost mid = self.wavetable@;
            self.wavetable[i] = slot;
            assert(self.wavetable@ == mid.update(i as int, self.wavetable@[i as int]));
            i += 1;
        }
    }

    /// Fills the table with the linear morph from slot 0 to slot 255. Every
    /// slot is overwritten, the two boundary slots too: what the slots
    /// between them held before plays no part.
    pub fn morph_liner(&mut self)
        ensures
            final(self).name == old(self).name,
            final(self)@ == morphed(old(self)@),
    {
        let first: [u32; 2048] = *self.wavetable[0].waveform;
        let last: [u32; 2048] = *self.wavetable[255].waveform;
        let steps: u32 = from_ratio(255, 0);
        let mut wt: usize = 0;
        while wt < 256
            invariant
                wt <= 256,
                self.name == old(self).name,
                steps == dyadic(255, 0),
                first@ == old(self)@[0],
                last@ == old(self)@[255],
                forall|i: int|
                    0 <= i < wt ==> (#[trigger] self.wavetable@[i])@ == blended(i, first@, last@),
            decreases 256 - wt,
        {
            let near: u32 = from_ratio((255 - wt) as u32, 0);
            let far: u32 = from_ratio(wt as u32, 0);
            let mut row: [u32; 2048] = [0u32; 2048];
            let mut wf: usize = 0;
            while wf < 2048
                invariant
                    wf <= 2048,
                    wt < 256,
                    steps == dyadic(255, 0),
                    near == dyadic((255 - wt) as nat, 0),
                    far == dyadic(wt as nat, 0),
                    forall|s: int|
                        0 <= s < wf ==> #[trigger] row@[s] == blend(wt as int, first@[s], last@[s]),
                decreases 2048 - wf,
            {
                row[wf] = div_bits(
                    add_bits(mul_bits(near, first[wf]), mul_bits(far, last[wf])),
                    steps,
                );
                wf += 1;
            }
            let ghost mid = self.wavetable@;
            self.wavetable[wt] = Waveform::new(row);
            assert(self.wavetable@ == mid.update(wt as int, self.wavetable@[wt as int]));
            assert(self.wavetable@[wt as int]@ =~= blended(wt as int, first@, last@));
            wt += 1;
        }
        assert(self@ =~= morphed(old(self)@));
    }

    /// The path of the sound file: the name between a fixed directory and a
    /// fixed extension.
    pub fn file_name(&self) -> (path: String)
        ensures
            path@ == "wavetable/"@ + self.name@ + ".wav"@,
    {
        let mut path: String = String::from_str("wavetable/");
        path.append(self.name.as_str());
        path.append(".wav");
        path
    }

    /// The sound file of the table: one channel of 16-bit samples at 44100
    /// samples a second, the 256 cycles one after another, 524288 samples in
    /// all. Writing it is left to the caller.
    pub fn export(&self) -> (file: PcmFile)
        ensures
            file.path@ == "wavetable/"@ + self.name@ + ".wav"@,
            file.channels == 1,
            file.sample_rate == 44100,
            file.bits_per_sample == 16,
            file.samples@.len() == 524288,
            forall|k: int|
                0 <= k < 524288 ==> #[trigger] file.samples@[k] == pcm_wrapped(
                    self@[k / 2048][k % 2048],
                ),
    {
        let full: u32 = from_ratio(32767, 0);
        let mut samples: Vec<i16> = Vec::with_capacity(524288);
        let mut wt: usize = 0;
        while wt < 256
            invariant
                wt <= 256,
                full == dyadic(32767, 0),
                samples@.len() == wt * 2048,
                forall|k: int|
                    0 <= k < wt * 2048 ==> #[trigger] samples@[k] == pcm_wrapped(
                        self.wavetable@[k / 2048]@[k % 2048],
                    ),
            decreases 256 - wt,
        {
            let mut wf: usize = 0;
            while wf < 2048
                invariant
                    wf <= 2048,
                    wt < 256,
                    full == dyadic(32767, 0),
                    samples@.len() == wt * 2048 + wf,
                    forall|k: int|
                        0 <= k < wt * 2048 + wf ==> #[trigger] samples@[k] == pcm_wrapped(
                            self.wavetable@[k / 2048]@[k % 2048],
                        ),
                decreases 2048 - wf,
            {
                let s: u32 = self.wavetable[wt].waveform[wf];
                samples.push(to_i16_wrapping(mul_bits(s, full)));
                wf += 1;
            }
            wt += 1;
        }
        PcmFile {
            path: self.file_name(),
            channels: 1,
            sample_rate: 44100,
            bits_per_sample: 16,
            samples,
        }
    }
}

} // verus!
