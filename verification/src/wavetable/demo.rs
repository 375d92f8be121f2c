//! The state behind the demonstration window.

use vstd::prelude::*;
use vstd::string::*;

verus! {

/// The demonstration window: it shows a caption and holds a position in the
/// table, which no message moves.
pub struct WtDemo {
    pos: usize,
}

impl WtDemo {
    /// The position in the table that the window stands at.
    pub closed spec fn position(&self) -> nat {
        self.pos as nat
    }

    pub fn new() -> (r: WtDemo)
        ensures
            r.position() == 0,
    {
        WtDemo { pos: 0 }
    }

    pub fn title(&self) -> (t: String)
        ensures
            t@ == "Wavetable Demo"@,
    {
        String::from_str("Wavetable Demo")
    }

    /// The only message is the empty one, and it changes nothing.
    pub fn update(&mut self, _message: ())
        ensures
            final(self).position() == old(self).position(),
    {
    }

    /// The position, for the window to show.
    pub fn pos(&self) -> (p: usize)
        ensures
            p == self.position(),
    {
        self.pos
    }
}

} // verus!
