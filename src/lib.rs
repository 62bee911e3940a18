//! A test harness runtime for firmware running on a cycle-stepped AVR
//! simulator: simulated-time accounting, pin waits driven one engine step at
//! a time, and flow-controlled serial channel buffers.

use vstd::prelude::*;

pub mod channel;
pub mod duration;
pub mod pins;
pub mod runtime;
pub mod simulator;
pub mod uart;

verus! {

} // verus!
