//! Single-cycle waveforms, tables of 256 of them, the linear morph between
//! the two ends of a table, and the 16-bit samples of the sound file that a
//! table is written to.
//!
//! Samples are binary32 numbers held by their bit pattern, and every step of
//! arithmetic on them is done in integer code, so that a table comes out the
//! same, bit for bit, wherever it is computed.

use vstd::prelude::*;

pub mod arith;
pub mod binary32;
pub mod preview;
pub mod waveform;
pub mod wavetable;
