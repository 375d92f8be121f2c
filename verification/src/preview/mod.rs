//! The state behind the preview window: which slot is shown, at which
//! frequency it is played, and where its samples are drawn.

use vstd::prelude::*;
use vstd::string::*;
use crate::arith::{
    add_bits, difference, div_bits, mul_bits, product, quotient, sub_bits, sum,
};
use crate::binary32::{dyadic, from_ratio, ONE, TWO};
use crate::waveform::Waveform;

pub mod sound;

verus! {

/// The pattern of the binary32 number nearest to 0.05: the margin left
/// beside the drawing, as a part of the width.
pub const MARGIN: u32 = 0x3d4c_cccd;

/// The pattern of the binary32 number nearest to 0.9: the part of the width,
/// and of half the height, that the drawing fills.
pub const FILL: u32 = 0x3f66_6666;

/// What the window is started with.
pub struct Flags {
    pub wt: [Waveform; 256],
    pub freq: u32,
    pub index: u8,
}

/// What the two sliders of the window send.
#[derive(Debug, Clone)]
pub enum Message {
    IndexChanged(u8),
    FreqChanged(u32),
}

/// The preview window. It reads the table and never changes it.
pub struct WtPreviewer {
    pub image: WtImage,
    pub freq: u32,
    pub index_textin: String,
}

/// The picture in the window: one slot of the table.
pub struct WtImage {
    pub wt: [Waveform; 256],
    pub index: u8,
}

/// The character of one decimal digit.
pub open spec fn digit(d: int) -> char {
    if d == 0 {
        '0'
    } else if d == 1 {
        '1'
    } else if d == 2 {
        '2'
    } else if d == 3 {
        '3'
    } else if d == 4 {
        '4'
    } else if d == 5 {
        '5'
    } else if d == 6 {
        '6'
    } else if d == 7 {
        '7'
    } else if d == 8 {
        '8'
    } else {
        '9'
    }
}

/// A number below 1000 in decimal digits, without leading zeros.
pub open spec fn decimal(n: int) -> Seq<char> {
    if n < 10 {
        seq![digit(n)]
    } else if n < 100 {
        seq![digit(n / 10), digit(n % 10)]
    } else {
        seq![digit(n / 100), digit(n / 10 % 10), digit(n % 10)]
    }
}

/// Where sample `i` of a cycle, of amplitude `s`, is drawn in a frame:
/// `width × (0.05 + i / 2048 × 0.9)` across and
/// `height / 2 × (1 - s × 0.9)` down, each step rounded to binary32.
pub open spec fn dot(i: int, s: u32, width: u32, height: u32) -> (u32, u32) {
    (
        product(width, sum(MARGIN, product(dyadic(i as nat, 11), FILL))),
        product(quotient(height, TWO), difference(ONE, product(s, FILL))),
    )
}

fn digit_text(d: u8) -> (t: &'static str)
    requires
        d < 10,
    ensures
        t@ == seq![digit(d as int)],
{
    proof {
        reveal_strlit("0");
        reveal_strlit("1");
        reveal_strlit("2");
        reveal_strlit("3");
        reveal_strlit("4");
        reveal_strlit("5");
        reveal_strlit("6");
        reveal_strlit("7");
        reveal_strlit("8");
        reveal_strlit("9");
    }
    let t = if d == 0 {
        "0"
    } else if d == 1 {
        "1"
    } else if d == 2 {
        "2"
    } else if d == 3 {
        "3"
    } else if d == 4 {
        "4"
    } else if d == 5 {
        "5"
    } else if d == 6 {
        "6"
    } else if d == 7 {
        "7"
    } else if d == 8 {
        "8"
    } else {
        "9"
    };
    assert(t@ =~= seq![digit(d as int)]);
    t
}

/// A slot index in decimal digits.
pub fn index_text(i: u8) -> (t: String)
    ensures
        t@ == decimal(i as int),
{
    let mut t: String = String::new();
    if i >= 100 {
        t.append(digit_text(i / 100));
    }
    if i >= 10 {
        t.append(digit_text(i / 10 % 10));
    }
    t.append(digit_text(i % 10));
    assert(t@ =~= decimal(i as int));
    t
}

impl WtImage {
    /// The dots of the picture in a frame of the given width and height: one
    /// for every fourth sample of the slot, 512 in all.
    pub fn draw(&self, width: u32, height: u32) -> (dots: Vec<(u32, u32)>)
        ensures
            dots@.len() == 512,
            forall|k: int|
                0 <= k < 512 ==> #[trigger] dots@[k] == dot(
                    4 * k,
                    self.wt@[self.index as int]@[4 * k],
                    width,
                    height,
                ),
    {
        let half: u32 = div_bits(height, TWO);
        let mut dots: Vec<(u32, u32)> = Vec::with_capacity(512);
        let mut k: usize = 0;
        while k < 512
            invariant
                k <= 512,
                half == quotient(height, TWO),
                dots@.len() == k,
                forall|j: int|
                    0 <= j < k ==> #[trigger] dots@[j] == dot(
                        4 * j,
                        self.wt@[self.index as int]@[4 * j],
                        width,
                        height,
                    ),
            decreases 512 - k,
        {
            let i: usize = 4 * k;
            let s: u32 = self.wt[self.index as usize].waveform[i];
            let x: u32 = mul_bits(
                width,
                add_bits(MARGIN, mul_bits(from_ratio(i as u32, 11), FILL)),
            );
            let y: u32 = mul_bits(half, sub_bits(ONE, mul_bits(s, FILL)));
            dots.push((x, y));
            k += 1;
        }
        dots
    }
}

impl WtPreviewer {
    /// The window as it opens: the slot and the frequency of the flags, and
    /// "0" in the index field.
    pub fn new(flags: Flags) -> (r: WtPreviewer)
        ensures
            r.image.wt == flags.wt,
            r.image.index == flags.index,
            r.freq == flags.freq,
            r.index_textin@ == seq!['0'],
    {
        let image = WtImage { wt: flags.wt, index: flags.index };
        proof {
            reveal_strlit("0");
        }
        let text = String::from_str("0");
        assert(text@ =~= seq!['0']);
        WtPreviewer { image, freq: flags.freq, index_textin: text }
    }

    pub fn title(&self) -> (t: String)
        ensures
            t@ == "Wavetable Previewer"@,
    {
        String::from_str("Wavetable Previewer")
    }

    /// Takes in a message of a slider. A new index changes the slot shown
    /// and the index field, and the picture has to be drawn again: the
    /// result says so. A new frequency changes the frequency alone.
    pub fn update(&mut self, message: Message) -> (redraw: bool)
        ensures
            final(self).image.wt == old(self).image.wt,
            match message {
                Message::IndexChanged(i) => {
                    &&& redraw
                    &&& final(self).image.index == i
                    &&& final(self).index_textin@ == decimal(i as int)
                    &&& final(self).freq == old(self).freq
                },
                Message::FreqChanged(f) => {
                    &&& !redraw
                    &&& final(self).freq == f
                    &&& final(self).image.index == old(self).image.index
                    &&& final(self).index_textin == old(self).index_textin
                },
            },
    {
        match message {
            Message::IndexChanged(i) => {
                self.image.index = i;
                self.index_textin = index_text(i);
                true
            },
            Message::FreqChanged(f) => {
                self.freq = f;
                false
            },
        }
    }
}

} // verus!
