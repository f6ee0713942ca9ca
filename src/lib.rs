//! Text reports on what pre-boot firmware tells about a machine: the memory map as a paced
//! table with totals and address lookup, the processor's identification, and the graphics
//! modes. Every line is built by verified code from plain values that a caller reads from
//! the firmware.
use vstd::prelude::*;

pub mod text;
pub mod size;
pub mod region;
pub mod report;
pub mod cpu;
pub mod display;

verus! {

} // verus!
