//! Telemetry windowing and viewer state for a spacecraft telemetry display.
//!
//! `segment` cuts a time-ordered stream of samples into windows at every gap
//! longer than a threshold; `session` holds the viewer's decisions: which
//! window to show next, the elapsed mission time, and the effect of each key.

use vstd::prelude::*;

pub mod segment;
pub mod session;

verus! {

} // verus!
